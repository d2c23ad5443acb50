use event_projection::account::{Event, EventType, ProjectorRegistry};
use event_projection::decision::{Calculator, Command, CommandResult, State};
use event_projection::decision::EventType as CalcEventType;

fn deposit(account: &str, value: i64) -> Event {
    Event {
        account_number: account.to_string(),
        event_type: EventType::AmountDeposited,
        value,
    }
}

fn withdrawal(account: &str, value: i64) -> Event {
    Event {
        account_number: account.to_string(),
        event_type: EventType::AmountWithdrawn,
        value,
    }
}

fn fee(account: &str, value: i64) -> Event {
    Event {
        account_number: account.to_string(),
        event_type: EventType::FeeApplied,
        value,
    }
}

#[test]
fn calculator_test_projector() {
    let mut registry = ProjectorRegistry::new();

    registry.apply_event(deposit("ACC123", 100));
    registry.apply_event(withdrawal("ACC123", 30));
    registry.apply_event(fee("ACC123", 5));

    let balance = registry.lookup_balance("ACC123").unwrap();
    assert_eq!(balance, 65);
}

#[test]
fn unknown_account_query() {
    let registry = ProjectorRegistry::new();
    assert_eq!(registry.lookup_balance("ACC123"), Err("unknown_account".to_string()));
}

#[test]
fn accounts_are_isolated() {
    let mut registry = ProjectorRegistry::new();
    registry.apply_event(deposit("A", 100));
    registry.apply_event(deposit("B", 7));
    registry.apply_event(withdrawal("B", 3));
    assert_eq!(registry.lookup_balance("A"), Ok(100));
    assert_eq!(registry.lookup_balance("B"), Ok(4));
}

#[test]
fn add_is_clamped_to_upper_bound() {
    let state = State { value: 9990 };
    match Calculator::handle_command(&state, Command::Add { value: 50 }) {
        CommandResult::Event(CalcEventType::ValueAdded { value }) => {
            assert_eq!(value, 10);
            let next = Calculator::handle_event(&state, CalcEventType::ValueAdded { value });
            assert_eq!(next.value, 10000);
        }
        other => panic!("expected a clamped add event, got {:?}", other),
    }
}

#[test]
fn subtract_is_clamped_to_lower_bound() {
    let state = State { value: 100 };
    match Calculator::handle_command(&state, Command::Min { value: 130 }) {
        CommandResult::Event(CalcEventType::ValueSubtracted { value }) => {
            assert_eq!(value, 100);
            let next = Calculator::handle_event(&state, CalcEventType::ValueSubtracted { value });
            assert_eq!(next.value, 0);
        }
        other => panic!("expected a clamped subtract event, got {:?}", other),
    }
}

#[test]
fn divide_by_zero_is_rejected() {
    for start in [0, 100, -100, 10000] {
        let state = State { value: start };
        match Calculator::handle_command(&state, Command::Div { value: 0 }) {
            CommandResult::Error(reason) => assert_eq!(reason, "divide_failed"),
            other => panic!("expected a rejection, got {:?}", other),
        }
    }
}

#[test]
fn overflowing_product_is_rejected() {
    let state = State { value: 200 };
    match Calculator::handle_command(&state, Command::Mul { value: 51 }) {
        CommandResult::Error(reason) => assert_eq!(reason, "multiply_failed"),
        other => panic!("expected a rejection, got {:?}", other),
    }
    match Calculator::handle_command(&state, Command::Mul { value: 50 }) {
        CommandResult::Event(CalcEventType::ValueMultiplied { value }) => {
            assert_eq!(value, 50);
            let next = Calculator::handle_event(&state, CalcEventType::ValueMultiplied { value });
            assert_eq!(next.value, 10000);
        }
        other => panic!("expected a multiply event, got {:?}", other),
    }
}

#[test]
fn division_truncates_toward_zero() {
    let state = State { value: 100 };
    match Calculator::handle_command(&state, Command::Div { value: -3 }) {
        CommandResult::Event(event) => {
            let next = Calculator::handle_event(&state, event);
            assert_eq!(next.value, -33);
        }
        other => panic!("expected a divide event, got {:?}", other),
    }
}

#[test]
fn decision_is_deterministic() {
    let state = State { value: 42 };
    for _ in 0..3 {
        match Calculator::handle_command(&state, Command::Add { value: 8 }) {
            CommandResult::Event(CalcEventType::ValueAdded { value }) => assert_eq!(value, 8),
            other => panic!("expected an add event, got {:?}", other),
        }
    }
    assert_eq!(state.value, 42);
}
