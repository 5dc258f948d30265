use std::sync::Arc;

use ferogram::di::{Handler, HandlerFunc, Injector, Kind, Resource, Value};
use ferogram::error::{Error, ErrorKind};
use ferogram::flow::{break_now, continue_now, continue_with, Action, Flow};
use ferogram::update::{Dice, Peer};

fn text(s: &str) -> Value {
    Value::Text(String::from(s))
}

#[test]
fn injector_is_first_in_first_out_per_type() {
    let mut injector = Injector::default();
    injector.insert(text("a1"));
    injector.insert(Value::Number(9));
    injector.insert(text("a2"));

    assert_eq!(injector.take(Kind::Text), Some(text("a1")));
    assert_eq!(injector.take(Kind::Text), Some(text("a2")));
    assert_eq!(injector.take(Kind::Text), None);
    assert_eq!(injector.take(Kind::Text), None);
    assert_eq!(injector.take(Kind::Number), Some(Value::Number(9)));
    assert_eq!(injector.take(Kind::Flag), None);
}

#[test]
fn injector_counts_the_types_that_were_inserted() {
    let mut injector = Injector::new();
    assert!(injector.is_empty());
    assert_eq!(injector.len(), 0);

    injector.insert(Value::Number(1));
    injector.insert(Value::Number(2));
    assert_eq!(injector.len(), 1);
    injector.insert(Value::Flag(false));
    assert_eq!(injector.len(), 2);
    assert!(!injector.is_empty());

    assert_eq!(injector.take(Kind::Flag), Some(Value::Flag(false)));
    assert_eq!(injector.len(), 2);
    assert!(!injector.is_empty());
}

#[test]
fn injector_get_peeks_at_the_oldest_without_taking_it() {
    let mut injector = Injector::default().with(Value::Number(1)).with(Value::Number(2));

    assert_eq!(injector.get(Kind::Number), Some(&Value::Number(1)));
    assert_eq!(injector.get(Kind::Number), Some(&Value::Number(1)));
    assert_eq!(injector.get(Kind::Text), None);
    assert_eq!(injector.take(Kind::Number), Some(Value::Number(1)));
    assert_eq!(injector.get(Kind::Number), Some(&Value::Number(2)));
    assert_eq!(injector.take(Kind::Number), Some(Value::Number(2)));
    assert_eq!(injector.get(Kind::Number), None);
}

#[test]
fn injector_extend_drains_the_other_and_keeps_the_order() {
    let mut first = Injector::default().with(Value::Number(1)).with(text("x"));
    let mut second = Injector::default().with(Value::Number(2)).with(Value::Number(3)).with(Value::Flag(true));

    first.extend(&mut second);

    assert!(second.is_empty());
    assert_eq!(second.take(Kind::Number), None);
    assert_eq!(first.len(), 3);
    assert_eq!(first.take(Kind::Number), Some(Value::Number(1)));
    assert_eq!(first.take(Kind::Number), Some(Value::Number(2)));
    assert_eq!(first.take(Kind::Number), Some(Value::Number(3)));
    assert_eq!(first.take(Kind::Number), None);
    assert_eq!(first.take(Kind::Flag), Some(Value::Flag(true)));
    assert_eq!(first.take(Kind::Text), Some(text("x")));
}

#[test]
fn injector_update_changes_the_oldest_in_place() {
    let mut injector = Injector::default().with(Value::Number(1)).with(Value::Number(2));

    let done = injector.update(Kind::Number, |value| match value {
        Value::Number(n) => Value::Number(n + 10),
        other => other,
    });

    assert_eq!(done, Ok(()));
    assert_eq!(injector.take(Kind::Number), Some(Value::Number(11)));
    assert_eq!(injector.take(Kind::Number), Some(Value::Number(2)));
}

#[test]
fn injector_update_of_a_missing_type_is_an_error() {
    let mut injector = Injector::default().with(Value::Number(1));

    let failed = injector.update(Kind::Text, |value| value).unwrap_err();

    assert_eq!(failed.kind, ErrorKind::MissingDependency);
    assert_eq!(failed.message, "Missing dependency: Text");
    assert_eq!(failed.to_string(), "MissingDependency: Missing dependency: Text");
    assert_eq!(injector.take(Kind::Number), Some(Value::Number(1)));

    assert_eq!(injector.update(Kind::Number, |value| value).unwrap_err().message, "Missing dependency: Number");
}

#[test]
fn injector_clone_leaves_the_source_as_it_was() {
    let source = Injector::default().with(text("a")).with(text("b"));
    let mut copy = source.clone();

    assert_eq!(copy.take(Kind::Text), Some(text("a")));
    assert_eq!(copy.take(Kind::Text), Some(text("b")));
    let mut source = source;
    assert_eq!(source.take(Kind::Text), Some(text("a")));
}

#[test]
fn value_knows_its_type_and_every_type_its_name() {
    let dice = Value::Dice(Arc::new(Dice { emoji: String::from("🎲"), value: 4 }));
    assert_eq!(dice.type_of(), Kind::Dice);
    assert_eq!(Value::Flag(true).type_of(), Kind::Flag);
    assert_eq!(text("t").type_of(), Kind::Text);
    let user = Value::User(Arc::new(Peer { id: 1, is_self: false, username: None, usernames: Vec::new() }));
    assert_eq!(user.type_of(), Kind::User);
    assert_eq!(user.clone(), user);
    assert_eq!(Kind::Flag.index(), 0);
    assert_eq!(Kind::Chat.index(), 22);
    assert_eq!(Kind::Dice.name(), "Dice");
    assert_eq!(Kind::CallbackQuery.name(), "CallbackQuery");
}

#[test]
fn resource_hands_its_value_out_by_type() {
    assert_eq!(Resource::new(Value::Number(3)).to(Kind::Number), Some(Value::Number(3)));
    assert_eq!(Resource::new(Value::Number(3)).to(Kind::Text), None);
    let resource = Resource::new(text("r"));
    assert_eq!(resource.to_ref(Kind::Text), Some(&text("r")));
    assert_eq!(resource.to_ref(Kind::Number), None);
    assert_eq!(resource.clone(), resource);
}

#[test]
fn flow_conversions() {
    assert!(Flow::from(Option::<Value>::None).is_break());
    let mut some = Flow::from(Some(Value::Number(5)));
    assert!(some.is_continue());
    assert_eq!(some.injector.take(Kind::Number), Some(Value::Number(5)));
    assert_eq!(some.injector.take(Kind::Number), None);

    assert!(Flow::from(()).is_break());
    assert!(Flow::from(true).is_continue());
    assert!(Flow::from(false).is_break());
    assert!(Flow::from(true).injector.is_empty());

    let mut ok = Flow::from(Ok::<Value, Error>(text("fine")));
    assert!(ok.is_continue());
    assert_eq!(ok.injector.take(Kind::Text), Some(text("fine")));
    let err = Flow::from(Err::<Value, Error>(Error::unknown()));
    assert!(err.is_break());
    assert!(err.injector.is_empty());
}

#[test]
fn flow_defaults_to_continue_and_can_be_turned() {
    let mut flow = Flow::default();
    assert!(flow.is_continue());
    assert!(!flow.is_break());
    assert!(flow.injector.is_empty());
    assert_eq!(Action::default(), Action::Continue);

    flow.to_break();
    assert!(flow.is_break());
    assert_eq!(flow.action, Action::Break);
    flow.inject(Value::Number(1));
    flow.to_continue();
    assert!(flow.is_continue());
    assert_eq!(flow.injector.take(Kind::Number), Some(Value::Number(1)));

    assert!(break_now().is_break());
    assert!(continue_now().is_continue());
    let mut with = continue_with(Value::Flag(true));
    assert!(with.is_continue());
    assert_eq!(with.injector.take(Kind::Flag), Some(Value::Flag(true)));
}

#[test]
fn handler_func_draws_its_arguments_in_order() {
    let mut injector =
        Injector::default().with(Value::Number(1)).with(text("t")).with(Value::Number(2)).with(Value::Number(3));
    let mut endpoint = HandlerFunc::new(vec![Kind::Number, Kind::Text, Kind::Number], |args: Vec<Value>| {
        if args == vec![Value::Number(1), Value::Text(String::from("t")), Value::Number(2)] {
            Ok(())
        } else {
            Err(Error::unknown())
        }
    });

    assert_eq!(endpoint.handle(&mut injector), Ok(()));
    assert_eq!(injector.take(Kind::Number), Some(Value::Number(3)));
    assert_eq!(injector.take(Kind::Text), None);
}

#[test]
fn handler_func_fails_on_the_first_type_that_is_missing() {
    let mut injector = Injector::default().with(Value::Number(1));
    let mut endpoint =
        HandlerFunc::new(vec![Kind::Number, Kind::Flag, Kind::Text], |_: Vec<Value>| -> Result<(), Error> {
            panic!("the function is called although a type is missing")
        });

    let error = endpoint.handle(&mut injector).unwrap_err();

    assert_eq!(error.kind, ErrorKind::MissingDependency);
    assert_eq!(error.message, "Missing dependency: Flag");
    assert_eq!(injector.take(Kind::Number), None);
}

#[test]
fn handler_func_returns_what_the_function_returns() {
    let mut injector = Injector::default();
    let mut fails = HandlerFunc::new(Vec::new(), |_: Vec<Value>| Err(Error::telegram("CHAT_WRITE_FORBIDDEN")));
    let error = fails.handle(&mut injector).unwrap_err();
    assert_eq!(error.kind, ErrorKind::Telegram);
    assert_eq!(error.to_string(), "Telegram: CHAT_WRITE_FORBIDDEN");
}
