use beltpack::orchestrator::shutdown_sweep_degrees;
use beltpack::orchestrator::Button;
use beltpack::orchestrator::InputLevels;
use beltpack::orchestrator::Orchestrator;
use beltpack::orchestrator::ScreenDraw;
use beltpack::orchestrator::ShownIdentity;
use beltpack::values::OperatorName;

fn boot() -> Orchestrator {
    let current = OperatorName::new("Self").unwrap();
    let target_a = OperatorName::new("Alice").unwrap();
    let target_b = OperatorName::new("Bob").unwrap();
    Orchestrator::new(current, target_a, target_b)
}

const QUIET: InputLevels = InputLevels {
    power: false,
    ptt1: false,
    ptt2: false,
};

const HELD: InputLevels = InputLevels {
    power: true,
    ptt1: false,
    ptt2: false,
};

#[test]
fn hold_released_on_ninth_tick_aborts_and_forces_refresh() {
    let mut orch = boot();
    for k in 1..=9u8 {
        let out = orch.tick(HELD);
        assert_eq!(out.draw, ScreenDraw::Shutdown { elapsed: k - 1 });
        assert!(!out.power_off);
        assert!(!out.refresh_environment);
        assert!(!out.clear_canvas);
    }
    // Releasing before the tenth tick aborts the countdown: the canvas
    // is cleared, the screen is idle again, and the environment
    // refresh fires at once even though only nine ticks have passed
    // since boot.
    let out = orch.tick(QUIET);
    assert!(out.clear_canvas);
    assert!(out.refresh_environment);
    assert!(!out.power_off);
    assert_eq!(
        out.draw,
        ScreenDraw::Name {
            shown: ShownIdentity::CurrentDevice,
            talking: false
        }
    );
    // The cadence restarts after the forced refresh: the next refresh
    // is ten quiet ticks later.
    for _ in 1..=9 {
        assert!(!orch.tick(QUIET).refresh_environment);
    }
    assert!(orch.tick(QUIET).refresh_environment);
}

#[test]
fn hold_for_ten_ticks_powers_off_on_the_tenth() {
    let mut orch = boot();
    for k in 1..=9u8 {
        let out = orch.tick(HELD);
        assert_eq!(out.draw, ScreenDraw::Shutdown { elapsed: k - 1 });
        assert!(!out.power_off);
    }
    let out = orch.tick(HELD);
    assert_eq!(out.draw, ScreenDraw::Shutdown { elapsed: 9 });
    assert!(out.power_off);
}

#[test]
fn ptt1_takes_priority_over_ptt2() {
    let mut orch = boot();
    let both = InputLevels {
        power: false,
        ptt1: true,
        ptt2: true,
    };
    let out = orch.tick(both);
    assert_eq!(
        out.draw,
        ScreenDraw::Name {
            shown: ShownIdentity::TargetA,
            talking: true
        }
    );
    assert_eq!(orch.name_for(ShownIdentity::TargetA).as_text(), "Alice");
}

#[test]
fn ptt2_talks_to_target_b_when_alone() {
    let mut orch = boot();
    let ptt2 = InputLevels {
        power: false,
        ptt1: false,
        ptt2: true,
    };
    let out = orch.tick(ptt2);
    assert_eq!(
        out.draw,
        ScreenDraw::Name {
            shown: ShownIdentity::TargetB,
            talking: true
        }
    );
    assert_eq!(orch.name_for(ShownIdentity::TargetB).as_text(), "Bob");
}

#[test]
fn quiet_ticks_refresh_exactly_every_ten() {
    let mut orch = boot();
    let mut refreshed = Vec::new();
    for k in 1..=35u32 {
        let out = orch.tick(QUIET);
        assert_eq!(
            out.draw,
            ScreenDraw::Name {
                shown: ShownIdentity::CurrentDevice,
                talking: false
            }
        );
        assert!(!out.power_off);
        assert!(!out.clear_canvas);
        if out.refresh_environment {
            refreshed.push(k);
        }
    }
    assert_eq!(refreshed, vec![10, 20, 30]);
}

#[test]
fn shutdown_sweep_grows_to_a_full_circle() {
    assert_eq!(shutdown_sweep_degrees(0), 36);
    assert_eq!(shutdown_sweep_degrees(4), 180);
    assert_eq!(shutdown_sweep_degrees(9), 360);
}

#[test]
fn button_labels() {
    assert_eq!(Button::Power.label(), "Power");
    assert_eq!(Button::Ptt1.label(), "PTT1");
    assert_eq!(Button::Ptt2.label(), "PTT2");
    assert_eq!(Button::Unknown.label(), "No Signal");
}

#[test]
fn names_survive_ticks() {
    let mut orch = boot();
    for _ in 0..25 {
        orch.tick(QUIET);
        orch.tick(HELD);
        orch.tick(QUIET);
    }
    assert_eq!(orch.name_for(ShownIdentity::CurrentDevice).as_text(), "Self");
    assert_eq!(orch.name_for(ShownIdentity::TargetA).as_text(), "Alice");
    assert_eq!(orch.name_for(ShownIdentity::TargetB).as_text(), "Bob");
}
