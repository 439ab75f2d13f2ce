use catena::types::{Disposition, Effects, ReloadState, SwapDecision};

#[test]
fn value_types_compare_and_copy() {
    let d = Disposition::Continue;
    let e = d;
    assert_eq!(d, e);
    assert_ne!(Disposition::Final, Disposition::Fail);
    assert_ne!(ReloadState::Active, ReloadState::Swapped);
    assert_eq!(SwapDecision::Defer, SwapDecision::Defer);
    let fx = Effects::default();
    assert!(fx.output.is_empty() && fx.broadcast.is_empty());
    let fx2 = Effects { output: vec!["hi".to_string()], broadcast: vec![] };
    assert_eq!(fx2.clone().output, vec!["hi".to_string()]);
}
