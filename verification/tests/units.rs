use koto::ugen::ugcore;
use koto::units::unit::{Mut, ADSR};

#[test]
fn amut_holds_the_value() {
    let cell = Mut::amut(41u32);
    *cell.0.lock().unwrap() += 1;
    assert_eq!(*cell.0.lock().unwrap(), 42);
}

#[test]
fn envelope_stages() {
    let stages = [ADSR::Attack, ADSR::Decay, ADSR::Sustin, ADSR::Release, ADSR::Idle];
    assert_eq!(stages.len(), 5);
    let s = ugcore::ADSR::Release;
    assert!(matches!(s.clone(), ugcore::ADSR::Release));
}
