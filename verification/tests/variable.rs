use rust_audio_shenanigans::variable::{apply_update, Update, Variable, VariableSetter};

type Change = fn(&f64) -> f64;

fn double(x: &f64) -> f64 {
    *x * 2.0
}

fn negate(x: &f64) -> f64 {
    *x * -1.0
}

#[test]
fn all_queued_updates_are_applied_in_order() {
    let (mut var, sender) = Variable::<f64, Change>::new(0.0);
    sender.set(1.0);
    sender.apply(double);
    sender.apply(negate);
    var.update();
    assert_eq!(*var.value(), -2.0);
}

#[test]
fn update_without_posts_keeps_the_value() {
    let (mut var, _sender) = Variable::<f64, Change>::new(440.0);
    var.update();
    assert_eq!(*var.value(), 440.0);
    var.update();
    assert_eq!(*var.value(), 440.0);
}

#[test]
fn posts_take_effect_only_on_update() {
    let (mut var, sender) = Variable::<u32, fn(&u32) -> u32>::new(7);
    sender.set(9);
    assert_eq!(*var.value(), 7);
    var.update();
    assert_eq!(*var.value(), 9);
}

#[test]
fn relative_updates_repeat() {
    let (mut var, sender) = Variable::<f64, Change>::new(1.0);
    for _ in 0..3 {
        sender.apply(negate);
    }
    var.update();
    assert_eq!(*var.value(), -1.0);
    sender.send(Update::Apply(negate));
    sender.send(Update::Replace(5.0));
    sender.send(Update::Apply(double));
    var.update();
    assert_eq!(*var.value(), 10.0);
}

#[test]
fn posting_after_the_owner_is_gone_is_harmless() {
    let (var, sender) = Variable::<f64, Change>::new(1.0);
    drop(var);
    sender.set(2.0);
    sender.apply(double);
}

#[test]
fn updates_after_the_sender_is_gone_are_still_applied() {
    let (mut var, sender) = Variable::<f64, Change>::new(1.0);
    sender.set(3.0);
    drop(sender);
    var.update();
    assert_eq!(*var.value(), 3.0);
    var.update();
    assert_eq!(*var.value(), 3.0);
}

#[test]
fn apply_update_replaces_or_maps() {
    assert_eq!(apply_update::<f64, Change>(&1.5, Update::Replace(4.0)), 4.0);
    assert_eq!(apply_update::<f64, Change>(&1.5, Update::Apply(double)), 3.0);
}

#[test]
fn value_can_be_changed_in_place() {
    let (mut var, sender) = Variable::<f64, Change>::new(1.0);
    *var.value_mut() = 8.0;
    assert_eq!(*var.value(), 8.0);
    sender.apply(double);
    *var.update_mut() += 1.0;
    assert_eq!(*var.value(), 17.0);
}
