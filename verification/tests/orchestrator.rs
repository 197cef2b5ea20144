use crate_lists::update::{Source, UpdateLists};

#[test]
fn all_switches_default_to_enabled() {
    let u = UpdateLists::default();
    assert!(u.github);
    assert!(u.registry);
    assert!(u.local);
}

#[test]
fn default_plan_runs_all_sources_in_fixed_order() {
    let plan = UpdateLists::default().apply();
    assert_eq!(plan, vec![Source::GitHub, Source::Registry, Source::Local]);
}

#[test]
fn local_only_plan_never_involves_remote_sources() {
    let u = UpdateLists {
        github: false,
        registry: false,
        local: true,
    };
    let plan = u.apply();
    assert_eq!(plan, vec![Source::Local]);
    assert!(!plan.contains(&Source::GitHub));
    assert!(!plan.contains(&Source::Registry));
}

#[test]
fn each_switch_controls_exactly_its_source() {
    let u = UpdateLists {
        github: true,
        registry: false,
        local: false,
    };
    assert_eq!(u.apply(), vec![Source::GitHub]);
    let u = UpdateLists {
        github: false,
        registry: true,
        local: true,
    };
    assert_eq!(u.apply(), vec![Source::Registry, Source::Local]);
}

#[test]
fn no_switches_yield_an_empty_plan() {
    let u = UpdateLists {
        github: false,
        registry: false,
        local: false,
    };
    assert!(u.apply().is_empty());
}
