use dimmer::brightness::Brightness;
use dimmer::policy::{is_special_device, plan_run, resolve_target, DeviceSnapshot};
use dimmer::ramp::{ramp_writes, STEP_SIZE};

#[test]
fn special_device_is_recognized() {
    assert!(is_special_device("ddcci9"));
    assert!(!is_special_device("intel_backlight"));
    assert!(!is_special_device("ddcci"));
    assert!(!is_special_device(""));
}

#[test]
fn restore_targets_full_brightness() {
    assert_eq!(resolve_target(true, false, Brightness(100)), Brightness(100));
    assert_eq!(resolve_target(true, false, Brightness(937)), Brightness(937));
}

#[test]
fn restore_special_device_targets_seventy_percent() {
    assert_eq!(resolve_target(true, true, Brightness(100)), Brightness(70));
    assert_eq!(resolve_target(true, true, Brightness(10)), Brightness(7));
    assert_eq!(resolve_target(true, true, Brightness(9)), Brightness(6));
}

#[test]
fn dim_targets_zero() {
    assert_eq!(resolve_target(false, false, Brightness(100)), Brightness(0));
    assert_eq!(resolve_target(false, true, Brightness(100)), Brightness(0));
}

#[test]
fn plan_covers_each_device() {
    let devices = vec![
        DeviceSnapshot {
            name: String::from("intel_backlight"),
            current: Brightness(800),
            max: Brightness(1000),
        },
        DeviceSnapshot {
            name: String::from("ddcci9"),
            current: Brightness(20),
            max: Brightness(100),
        },
    ];
    let plans = plan_run(&devices, true);
    assert_eq!(plans.len(), 2);
    assert_eq!(plans[0].start, Brightness(800));
    assert_eq!(plans[0].target, Brightness(1000));
    assert_eq!(plans[1].start, Brightness(20));
    assert_eq!(plans[1].target, Brightness(70));
}

#[test]
fn dim_plan_sends_everything_to_zero() {
    let devices = vec![DeviceSnapshot {
        name: String::from("acpi_video0"),
        current: Brightness(55),
        max: Brightness(255),
    }];
    let plans = plan_run(&devices, false);
    assert_eq!(plans.len(), 1);
    assert_eq!(plans[0].target, Brightness(0));
}

#[test]
fn planned_targets_never_exceed_maximum() {
    let devices = vec![
        DeviceSnapshot {
            name: String::from("ddcci9"),
            current: Brightness(1),
            max: Brightness(3),
        },
        DeviceSnapshot {
            name: String::from("edp1"),
            current: Brightness(2),
            max: Brightness(3),
        },
    ];
    for restore in [false, true] {
        for plan in plan_run(&devices, restore) {
            assert!(plan.target.0 <= 3);
            for w in ramp_writes(plan.start, plan.target, STEP_SIZE) {
                assert!(w <= 3);
            }
        }
    }
}

#[test]
fn zero_devices_means_zero_writes() {
    let devices: Vec<DeviceSnapshot> = Vec::new();
    let plans = plan_run(&devices, true);
    assert!(plans.is_empty());
    let total: usize = plans
        .iter()
        .map(|p| ramp_writes(p.start, p.target, STEP_SIZE).len())
        .sum();
    assert_eq!(total, 0);
}

#[test]
fn two_planned_devices_converge_independently() {
    let devices = vec![
        DeviceSnapshot {
            name: String::from("left"),
            current: Brightness(12),
            max: Brightness(100),
        },
        DeviceSnapshot {
            name: String::from("right"),
            current: Brightness(40),
            max: Brightness(60),
        },
    ];
    let plans = plan_run(&devices, false);
    let writes_left = ramp_writes(plans[0].start, plans[0].target, STEP_SIZE);
    let writes_right = ramp_writes(plans[1].start, plans[1].target, STEP_SIZE);
    assert_eq!(writes_left, vec![8, 4, 0]);
    assert_eq!(writes_right, vec![36, 32, 28, 24, 20, 16, 12, 8, 4, 0]);
}
