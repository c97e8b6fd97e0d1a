use helix_evil::pending::{
    Command, Event, EvilContext, Modifier, Motion, PendingState, ReadyCommand, SetMode,
};

fn feed_all(cx: &mut EvilContext, events: &[Event]) -> Vec<ReadyCommand> {
    let mut out = Vec::new();
    for e in events {
        if let Some(c) = cx.feed_event(*e) {
            out.push(c);
        }
    }
    out
}

#[test]
fn delete_three_next_word_end() {
    let mut cx = EvilContext::new();
    let out = feed_all(
        &mut cx,
        &[
            Event::SetOperator(Command::Delete),
            Event::AppendDigit(3),
            Event::SetMotion(Motion::NextWordEnd),
        ],
    );
    assert_eq!(out.len(), 1);
    assert_eq!(out[0].operator, Command::Delete);
    assert_eq!(out[0].motion, Motion::NextWordEnd);
    assert_eq!(out[0].count, 3);
    assert!(out[0].modifiers.is_empty());
    assert!(matches!(cx.state, PendingState::Idle));
    assert_eq!(cx.set_mode, None);
}

#[test]
fn cancel_clears_everything() {
    let mut cx = EvilContext::new();
    let out = feed_all(
        &mut cx,
        &[
            Event::SetMode(SetMode::Insert),
            Event::SetOperator(Command::Change),
            Event::AppendDigit(4),
            Event::AppendModifier(Modifier::InnerWord),
            Event::Cancel,
        ],
    );
    assert!(out.is_empty());
    assert!(matches!(cx.state, PendingState::Idle));
    assert_eq!(cx.set_mode, None);
    // nothing of the cancelled input survives
    let out = feed_all(&mut cx, &[Event::SetOperator(Command::Yank), Event::SetMotion(Motion::LineEnd)]);
    assert_eq!(out.len(), 1);
    assert_eq!(out[0].operator, Command::Yank);
    assert_eq!(out[0].count, 1);
    assert!(out[0].modifiers.is_empty());
    assert_eq!(out[0].set_mode, None);
}

#[test]
fn cancel_while_awaiting_modifier() {
    let mut cx = EvilContext::new();
    feed_all(&mut cx, &[Event::SetOperator(Command::Delete), Event::SetMotion(Motion::Word)]);
    assert!(matches!(cx.state, PendingState::AwaitingModifier { .. }));
    assert!(cx.feed_event(Event::Cancel).is_none());
    assert!(matches!(cx.state, PendingState::Idle));
}

#[test]
fn count_defaults_to_one_and_concatenates_digits() {
    let mut cx = EvilContext::new();
    let out = feed_all(
        &mut cx,
        &[
            Event::SetOperator(Command::Yank),
            Event::AppendDigit(0),
            Event::AppendDigit(1),
            Event::AppendDigit(2),
            Event::SetMotion(Motion::PrevWordStart),
        ],
    );
    assert_eq!(out.len(), 1);
    assert_eq!(out[0].count, 12);
}

#[test]
fn huge_count_saturates() {
    let mut cx = EvilContext::new();
    cx.feed_event(Event::SetOperator(Command::Delete));
    for _ in 0..25 {
        cx.feed_event(Event::AppendDigit(9));
    }
    let r = cx.feed_event(Event::SetMotion(Motion::LineStart)).unwrap();
    assert_eq!(r.count, usize::MAX);
}

#[test]
fn events_without_operator_are_ignored() {
    let mut cx = EvilContext::new();
    let out = feed_all(
        &mut cx,
        &[
            Event::AppendDigit(5),
            Event::AppendModifier(Modifier::InnerWord),
            Event::SetMotion(Motion::LineEnd),
        ],
    );
    assert!(out.is_empty());
    assert!(matches!(cx.state, PendingState::Idle));
}

#[test]
fn second_operator_is_ignored() {
    let mut cx = EvilContext::new();
    let out = feed_all(
        &mut cx,
        &[
            Event::SetOperator(Command::Delete),
            Event::SetOperator(Command::Yank),
            Event::AppendDigit(12),
            Event::SetMotion(Motion::NextLongWordEnd),
        ],
    );
    assert_eq!(out.len(), 1);
    assert_eq!(out[0].operator, Command::Delete);
    assert_eq!(out[0].count, 1);
}

#[test]
fn text_object_waits_for_its_modifier() {
    let mut cx = EvilContext::new();
    assert!(cx.feed_event(Event::SetOperator(Command::Change)).is_none());
    assert!(cx.feed_event(Event::SetMotion(Motion::Word)).is_none());
    assert!(cx.feed_event(Event::AppendDigit(2)).is_none());
    assert!(cx.feed_event(Event::SetMode(SetMode::Insert)).is_none());
    let r = cx.feed_event(Event::AppendModifier(Modifier::InnerWord)).unwrap();
    assert_eq!(r.operator, Command::Change);
    assert_eq!(r.motion, Motion::Word);
    assert_eq!(r.count, 2);
    assert_eq!(r.modifiers, vec![Modifier::InnerWord]);
    assert_eq!(r.set_mode, Some(SetMode::Insert));
    assert!(matches!(cx.state, PendingState::Idle));
}

#[test]
fn modifier_given_before_text_object() {
    let mut cx = EvilContext::new();
    let out = feed_all(
        &mut cx,
        &[
            Event::SetOperator(Command::Yank),
            Event::AppendModifier(Modifier::InnerWord),
            Event::AppendModifier(Modifier::InnerWord),
            Event::SetMotion(Motion::Word),
        ],
    );
    assert_eq!(out.len(), 1);
    assert_eq!(out[0].modifiers, vec![Modifier::InnerWord]);
}

#[test]
fn reset_returns_to_idle() {
    let mut cx = EvilContext::new();
    feed_all(&mut cx, &[Event::SetMode(SetMode::Normal), Event::SetOperator(Command::Delete)]);
    cx.reset();
    assert!(matches!(cx.state, PendingState::Idle));
    assert_eq!(cx.set_mode, None);
    assert!(Motion::Word.required_modifier() == Some(Modifier::InnerWord));
    assert!(Motion::LineEnd.required_modifier().is_none());
}
