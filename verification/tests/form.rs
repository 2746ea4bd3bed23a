use rojmer::{App, EntityKind, InputField, InputMode, Key, TransactionType};

fn type_text(app: &mut App, text: &str) {
    for c in text.chars() {
        app.handle_key(Key::Char(c), 0);
    }
}

fn fill(app: &mut App, fields: &[&str], now: u64) {
    for text in fields {
        type_text(app, text);
        app.handle_key(Key::Enter, now);
    }
}

fn editing(app: &App) -> (String, usize, InputField) {
    match &app.input.mode {
        InputMode::Editing {
            input,
            cursor_position,
            field,
        } => (input.clone(), *cursor_position, *field),
        InputMode::Normal => panic!("no form is open"),
    }
}

fn is_normal(app: &App) -> bool {
    matches!(app.input.mode, InputMode::Normal)
}

fn all_fields() -> Vec<InputField> {
    vec![
        InputField::BankName,
        InputField::BankAccountNumber,
        InputField::BankBalance,
        InputField::BucketName,
        InputField::BucketBalance,
        InputField::BucketBankName,
        InputField::BucketAccountNumber,
        InputField::TagName,
        InputField::TagBucketName,
        InputField::TagDescription,
        InputField::TransactionType,
        InputField::TransactionAmount,
        InputField::TransactionTags,
        InputField::TransactionDescription,
    ]
}

fn slots_are_empty(app: &App) -> bool {
    all_fields().into_iter().all(|f| app.input.get(f).is_empty())
}

#[test]
fn new_app_starts_on_the_first_menu_entry() {
    let app = App::new();
    assert!(!app.should_quit);
    assert_eq!(app.menu_state.selected, 0);
    assert_eq!(
        app.menu_state.items,
        vec!["Banks", "Buckets", "Tags", "Transactions", "Exit"]
    );
    assert!(is_normal(&app));
    assert!(slots_are_empty(&app));
    assert_eq!(app.input.message, "");
    assert!(app.user_data.bank.is_empty());
}

#[test]
fn typed_bank_form_is_stored_on_the_last_confirm() {
    let mut app = App::new();
    app.handle_key(Key::Char('n'), 0);
    assert_eq!(editing(&app), (String::new(), 0, InputField::BankName));
    fill(&mut app, &["Chase", "12345"], 0);
    type_text(&mut app, "100.50");
    assert_eq!(editing(&app), ("100.50".to_string(), 6, InputField::BankBalance));
    assert!(app.user_data.bank.is_empty());
    app.handle_key(Key::Enter, 0);
    assert_eq!(app.user_data.bank.len(), 1);
    assert_eq!(app.user_data.bank[0].name, "Chase");
    assert_eq!(app.user_data.bank[0].accountnumber, "12345");
    assert_eq!(app.user_data.bank[0].balance.to_text(), "100.50");
    assert_eq!(app.input.message, "Bank added successfully");
    assert!(is_normal(&app));
    assert!(slots_are_empty(&app));
}

#[test]
fn down_confirms_like_enter() {
    let mut app = App::new();
    app.start_new_bank_input();
    for text in ["Chase", "12345", "1"] {
        type_text(&mut app, text);
        app.handle_key(Key::Down, 0);
    }
    assert_eq!(app.user_data.bank.len(), 1);
    assert_eq!(app.input.message, "Bank added successfully");
}

#[test]
fn every_keystroke_reaches_the_slot() {
    let mut app = App::new();
    app.start_new_bank_input();
    app.handle_key(Key::Char('C'), 0);
    assert_eq!(app.input.bank_name, "C");
    app.handle_key(Key::Char('h'), 0);
    assert_eq!(app.input.bank_name, "Ch");
    assert_eq!(app.input.get(InputField::BankName), "Ch");
    app.handle_key(Key::Backspace, 0);
    assert_eq!(app.input.bank_name, "C");
    assert_eq!(editing(&app), ("C".to_string(), 1, InputField::BankName));
    app.handle_key(Key::Backspace, 0);
    app.handle_key(Key::Backspace, 0);
    assert_eq!(app.input.bank_name, "");
    assert_eq!(editing(&app), (String::new(), 0, InputField::BankName));
}

#[test]
fn characters_beyond_ascii_are_typed_and_erased_whole() {
    let mut app = App::new();
    app.start_new_tag_input();
    type_text(&mut app, "caf\u{e9}s \u{1F600}");
    assert_eq!(editing(&app), ("caf\u{e9}s \u{1F600}".to_string(), 7, InputField::TagName));
    app.handle_key(Key::Backspace, 0);
    app.handle_key(Key::Backspace, 0);
    app.handle_key(Key::Backspace, 0);
    assert_eq!(editing(&app), ("caf\u{e9}".to_string(), 4, InputField::TagName));
    assert_eq!(app.input.tag_name, "caf\u{e9}");
    app.handle_key(Key::Enter, 0);
    app.handle_key(Key::Up, 0);
    assert_eq!(editing(&app), ("caf\u{e9}".to_string(), 4, InputField::TagName));
}

#[test]
fn characters_go_in_at_the_cursor() {
    let mut app = App::new();
    app.start_new_bank_input();
    app.input.mode = InputMode::Editing {
        input: "ac".to_string(),
        cursor_position: 1,
        field: InputField::BankName,
    };
    app.input.bank_name = "ac".to_string();
    app.handle_key(Key::Char('b'), 0);
    assert_eq!(editing(&app), ("abc".to_string(), 2, InputField::BankName));
    assert_eq!(app.input.bank_name, "abc");
    app.handle_key(Key::Backspace, 0);
    app.handle_key(Key::Backspace, 0);
    assert_eq!(editing(&app), ("c".to_string(), 0, InputField::BankName));
    app.handle_key(Key::Backspace, 0);
    assert_eq!(editing(&app), ("c".to_string(), 0, InputField::BankName));
    assert_eq!(app.input.bank_name, "c");
}

#[test]
fn back_then_forward_restores_field_text_and_cursor() {
    let mut app = App::new();
    app.start_new_bucket_input();
    fill(&mut app, &["Rent", "250"], 0);
    type_text(&mut app, "Chase");
    assert_eq!(editing(&app), ("Chase".to_string(), 5, InputField::BucketBankName));
    app.handle_key(Key::Up, 0);
    assert_eq!(editing(&app), ("250".to_string(), 3, InputField::BucketBalance));
    app.handle_key(Key::Enter, 0);
    assert_eq!(editing(&app), ("Chase".to_string(), 5, InputField::BucketBankName));
    assert_eq!(app.input.bucket_name, "Rent");
    assert_eq!(app.input.bucket_balance, "250");
    assert_eq!(app.input.bucket_bank_name, "Chase");
}

#[test]
fn back_on_the_first_field_does_nothing() {
    let mut app = App::new();
    app.start_new_transaction_input();
    type_text(&mut app, "e");
    app.handle_key(Key::Up, 0);
    assert_eq!(editing(&app), ("e".to_string(), 1, InputField::TransactionType));
}

#[test]
fn a_field_can_be_corrected_after_going_back() {
    let mut app = App::new();
    app.start_new_bank_input();
    fill(&mut app, &["Chase", "12345"], 0);
    type_text(&mut app, "1");
    app.handle_key(Key::Up, 0);
    app.handle_key(Key::Up, 0);
    app.handle_key(Key::Backspace, 0);
    type_text(&mut app, "e Bank");
    app.handle_key(Key::Enter, 0);
    app.handle_key(Key::Enter, 0);
    assert_eq!(editing(&app), ("1".to_string(), 1, InputField::BankBalance));
    app.handle_key(Key::Enter, 0);
    assert_eq!(app.user_data.bank[0].name, "Chase Bank");
    assert_eq!(app.user_data.bank[0].accountnumber, "12345");
}

#[test]
fn escape_closes_the_form_and_drops_what_was_typed() {
    let mut app = App::new();
    app.start_new_bank_input();
    fill(&mut app, &["Chase"], 0);
    type_text(&mut app, "123");
    app.handle_key(Key::Esc, 0);
    assert!(is_normal(&app));
    assert!(slots_are_empty(&app));
    assert_eq!(app.input.message, "");
    assert!(app.user_data.bank.is_empty());
}

#[test]
fn refused_commit_closes_the_form_and_leaves_the_reason() {
    let mut app = App::new();
    app.start_new_bank_input();
    fill(&mut app, &["Chase", "12345", "much"], 0);
    assert!(is_normal(&app));
    assert_eq!(app.input.message, "Invalid balance format");
    assert!(app.user_data.bank.is_empty());
    assert!(slots_are_empty(&app));
}

#[test]
fn second_bank_form_with_the_same_key_is_refused() {
    let mut app = App::new();
    app.start_new_bank_input();
    fill(&mut app, &["Chase", "12345", "100.50"], 0);
    app.start_new_bank_input();
    assert_eq!(app.input.message, "");
    fill(&mut app, &["Chase", "12345", "3"], 0);
    assert_eq!(app.user_data.bank.len(), 1);
    assert_eq!(
        app.input.message,
        "Bank with name 'Chase' and account '12345' already exists"
    );
}

#[test]
fn bucket_form_appends_bank_and_bucket() {
    let mut app = App::new();
    app.start_new_bucket_input();
    fill(&mut app, &["Rent", "250", "Chase", "12345"], 0);
    assert_eq!(app.input.message, "Bucket added successfully");
    assert_eq!(app.user_data.bank.len(), 1);
    assert_eq!(app.user_data.bucket.len(), 1);
    assert_eq!(app.user_data.bank[0].balance.to_text(), "0");
    assert_eq!(app.user_data.bucket[0].bank.name, "Chase");
}

#[test]
fn tag_form_without_its_bucket_appends_nothing() {
    let mut app = App::new();
    app.start_new_tag_input();
    fill(&mut app, &["groceries", "Food", "weekly"], 0);
    assert_eq!(app.input.message, "Bucket with name 'Food' does not exist");
    assert!(app.user_data.tag.is_empty());
    assert!(app.user_data.bucket.is_empty());
}

fn app_with_groceries() -> App {
    let mut app = App::new();
    app.start_new_bucket_input();
    fill(&mut app, &["Food", "80", "Chase", "12345"], 0);
    app.start_new_tag_input();
    fill(&mut app, &["groceries", "Food", "weekly"], 0);
    assert_eq!(app.input.message, "Tag added successfully");
    app
}

#[test]
fn typed_expense_with_an_existing_tag_is_stored() {
    let mut app = app_with_groceries();
    app.start_new_transaction_input();
    fill(&mut app, &["e", "42.00", "groceries", "weekly shop"], 1_700_000_000);
    assert_eq!(app.input.message, "Transaction added successfully");
    assert_eq!(app.user_data.transaction.len(), 1);
    let entry = &app.user_data.transaction[0];
    assert_eq!(entry.id, 1);
    assert_eq!(entry.transaction_type, TransactionType::Expense);
    assert_eq!(entry.amount.to_text(), "42.00");
    assert_eq!(entry.timestamp, 1_700_000_000);
    assert_eq!(entry.description, "weekly shop");
    assert_eq!(entry.tags.len(), 1);
    assert_eq!(entry.tags[0].name, "groceries");
}

#[test]
fn typed_expense_with_an_unknown_tag_is_refused() {
    let mut app = app_with_groceries();
    app.start_new_transaction_input();
    fill(&mut app, &["e", "42.00", "holidays", "weekly shop"], 1);
    assert_eq!(app.input.message, "Tag 'holidays' does not exist");
    assert!(app.user_data.transaction.is_empty());
    assert!(is_normal(&app));
}

#[test]
fn transaction_ids_follow_the_order_of_commits() {
    let mut app = app_with_groceries();
    for (i, text) in ["1", "2", "3"].iter().enumerate() {
        app.start_new_transaction_input();
        fill(&mut app, &["i", text, "", ""], 100 + i as u64);
        app.start_new_bank_input();
        fill(&mut app, &["Bank", text, "0"], 0);
    }
    let ids: Vec<u64> = app.user_data.transaction.iter().map(|t| t.id).collect();
    assert_eq!(ids, vec![1, 2, 3]);
    let times: Vec<u64> = app.user_data.transaction.iter().map(|t| t.timestamp).collect();
    assert_eq!(times, vec![100, 101, 102]);
}

#[test]
fn menu_wraps_around_both_ends() {
    let mut app = App::new();
    app.handle_key(Key::Up, 0);
    assert_eq!(app.menu_state.selected, 4);
    app.handle_key(Key::Down, 0);
    assert_eq!(app.menu_state.selected, 0);
    app.handle_key(Key::Down, 0);
    app.handle_key(Key::Down, 0);
    assert_eq!(app.menu_state.selected, 2);
    app.handle_key(Key::Up, 0);
    assert_eq!(app.menu_state.selected, 1);
}

#[test]
fn n_opens_the_form_of_the_selected_entry() {
    let firsts = [
        InputField::BankName,
        InputField::BucketName,
        InputField::TagName,
        InputField::TransactionType,
    ];
    for (downs, first) in firsts.iter().enumerate() {
        let mut app = App::new();
        for _ in 0..downs {
            app.handle_key(Key::Down, 0);
        }
        app.handle_key(Key::Char('n'), 0);
        assert_eq!(editing(&app), (String::new(), 0, *first));
    }
    let mut app = App::new();
    app.handle_key(Key::Up, 0);
    app.handle_key(Key::Char('n'), 0);
    assert!(is_normal(&app));
}

#[test]
fn q_and_enter_on_exit_quit() {
    let mut app = App::new();
    app.handle_key(Key::Enter, 0);
    assert!(!app.should_quit);
    app.handle_key(Key::Up, 0);
    app.handle_key(Key::Enter, 0);
    assert!(app.should_quit);
    let mut app = App::new();
    app.handle_key(Key::Char('q'), 0);
    assert!(app.should_quit);
}

#[test]
fn q_and_n_are_ordinary_characters_in_a_form() {
    let mut app = App::new();
    app.start_new_bank_input();
    type_text(&mut app, "qn");
    assert!(!app.should_quit);
    assert_eq!(app.input.bank_name, "qn");
}

#[test]
fn other_keys_change_nothing() {
    let mut app = App::new();
    app.handle_key(Key::Other, 0);
    app.handle_key(Key::Esc, 0);
    app.handle_key(Key::Backspace, 0);
    app.handle_key(Key::Char('x'), 0);
    assert!(is_normal(&app));
    assert_eq!(app.menu_state.selected, 0);
    assert!(!app.should_quit);
    app.start_new_bank_input();
    type_text(&mut app, "a");
    app.handle_key(Key::Other, 0);
    assert_eq!(editing(&app), ("a".to_string(), 1, InputField::BankName));
}

#[test]
fn handle_events_without_an_event_changes_nothing() {
    let mut app = App::new();
    app.handle_events(None);
    assert!(is_normal(&app));
    assert_eq!(app.menu_state.selected, 0);
    assert!(!app.should_quit);
}

#[test]
fn handle_events_dates_a_transaction_by_the_clock() {
    let mut app = App::new();
    app.handle_events(Some(Key::Down));
    app.handle_events(Some(Key::Down));
    app.handle_events(Some(Key::Down));
    app.handle_events(Some(Key::Char('n')));
    for text in ["i", "5", "", "pay"] {
        for c in text.chars() {
            app.handle_events(Some(Key::Char(c)));
        }
        app.handle_events(Some(Key::Enter));
    }
    assert_eq!(app.user_data.transaction.len(), 1);
    assert_eq!(app.user_data.transaction[0].description, "pay");
    // Later than 2020-01-01, on any machine whose clock is set.
    assert!(app.user_data.transaction[0].timestamp > 1_577_836_800);
}

#[test]
fn forms_list_their_fields_in_order() {
    let forms = [
        (EntityKind::Bank, &all_fields()[0..3]),
        (EntityKind::Bucket, &all_fields()[3..7]),
        (EntityKind::Tag, &all_fields()[7..10]),
        (EntityKind::Transaction, &all_fields()[10..14]),
    ];
    for (kind, fields) in forms {
        assert_eq!(kind.first_field(), fields[0]);
        assert_eq!(fields[0].previous(), None);
        assert_eq!(fields[fields.len() - 1].next(), None);
        for i in 0..fields.len() {
            assert_eq!(fields[i].kind(), kind);
            if i + 1 < fields.len() {
                assert_eq!(fields[i].next(), Some(fields[i + 1]));
                assert_eq!(fields[i + 1].previous(), Some(fields[i]));
            }
        }
    }
}

#[test]
fn starting_a_form_clears_the_last_message_and_slots() {
    let mut app = App::new();
    app.start_new_bank_input();
    fill(&mut app, &["Chase", "12345", "x"], 0);
    assert_eq!(app.input.message, "Invalid balance format");
    app.update_field_value(&InputField::TagName, "left over");
    assert_eq!(app.input.tag_name, "left over");
    app.start_new_tag_input();
    assert_eq!(app.input.message, "");
    assert!(slots_are_empty(&app));
    assert_eq!(editing(&app), (String::new(), 0, InputField::TagName));
}

#[test]
fn switch_to_field_puts_the_cursor_behind_the_text() {
    let mut app = App::new();
    app.switch_to_field(InputField::TagDescription, "na\u{ef}ve".to_string());
    assert_eq!(editing(&app), ("na\u{ef}ve".to_string(), 5, InputField::TagDescription));
}

#[test]
fn states_made_by_the_handlers_accept_events() {
    let mut app = App::new();
    assert!(app.accepts_events());
    app.start_new_bucket_input();
    assert!(app.accepts_events());
    fill(&mut app, &["Rent", "250"], 0);
    type_text(&mut app, "Cha");
    app.handle_key(Key::Backspace, 0);
    app.handle_key(Key::Up, 0);
    assert!(app.accepts_events());
    app.handle_key(Key::Esc, 0);
    assert!(app.accepts_events());
}

#[test]
fn states_that_break_the_invariant_do_not_accept_events() {
    let mut app = App::new();
    app.menu_state.selected = 5;
    assert!(!app.accepts_events());

    let mut app = App::new();
    app.menu_state.items.clear();
    assert!(!app.accepts_events());

    let mut app = App::new();
    app.input.mode = InputMode::Editing {
        input: "ab".to_string(),
        cursor_position: 3,
        field: InputField::BankName,
    };
    app.input.bank_name = "ab".to_string();
    assert!(!app.accepts_events());

    let mut app = App::new();
    app.input.mode = InputMode::Editing {
        input: "ab".to_string(),
        cursor_position: 2,
        field: InputField::BankName,
    };
    assert!(!app.accepts_events());
    app.input.bank_name = "ab".to_string();
    assert!(app.accepts_events());

    let mut app = App::new();
    app.input.mode = InputMode::Editing {
        input: "\u{e9}".to_string(),
        cursor_position: 2,
        field: InputField::TagName,
    };
    app.input.tag_name = "\u{e9}".to_string();
    assert!(!app.accepts_events());
}
