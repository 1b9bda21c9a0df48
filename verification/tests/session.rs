use csv_rag::record::Record;
use csv_rag::session::{augmented_prompt, classify, ChatTurn, Command, Role, Session};

fn jane() -> Record {
    Record {
        first_name: String::from("Jane"),
        last_name: String::from("Doe"),
        email: String::from("jane@x.com"),
        role: String::from("Engineer"),
        salary: 90000,
    }
}

fn john() -> Record {
    Record {
        first_name: String::from("John"),
        last_name: String::from("Smith"),
        email: String::from("john@x.com"),
        role: String::from("Manager"),
        salary: 120000,
    }
}

/// A deterministic stand-in for the vector index: a fixed record set,
/// always returned in the same order for the same query.
fn stub_top_n(records: &[Record], _query: &str, n: usize) -> Vec<Record> {
    records.iter().take(n).cloned().collect()
}

#[test]
fn classify_quit() {
    assert_eq!(classify("quit"), Command::Quit);
}

#[test]
fn classify_reset() {
    assert_eq!(classify("reset"), Command::Reset);
}

#[test]
fn classify_question() {
    assert_eq!(classify("Who is the engineer?"), Command::Ask);
    assert_eq!(classify("Quit"), Command::Ask);
    assert_eq!(classify(""), Command::Ask);
}

#[test]
fn augmented_prompt_exact_text() {
    let docs = vec![jane()];
    let p = augmented_prompt(&docs, "Who is the engineer?");
    assert_eq!(
        p,
        "Relevant employees:\n\
         First name: Jane\nLast name: Doe\nEmail: jane@x.com\nRole: Engineer\nSalary: 90000\
         \n\nWho is the engineer?"
    );
}

#[test]
fn augmented_prompt_joins_records_with_newlines() {
    let docs = vec![jane(), john()];
    let p = augmented_prompt(&docs, "Who earns more?");
    let expected = format!(
        "Relevant employees:\n{}\n{}\n\nWho earns more?",
        jane().render(),
        john().render()
    );
    assert_eq!(p, expected);
}

#[test]
fn augmented_prompt_no_records() {
    let docs: Vec<Record> = Vec::new();
    assert_eq!(augmented_prompt(&docs, "hi"), "Relevant employees:\n\n\nhi");
}

#[test]
fn retrieval_pipeline_is_deterministic_with_stub_index() {
    let records = vec![jane(), john()];
    let query = "Who is the engineer?";
    let first = stub_top_n(&records, query, 4);
    let second = stub_top_n(&records, query, 4);
    assert_eq!(first, second);
    assert_eq!(
        augmented_prompt(&first, query),
        augmented_prompt(&second, query)
    );
}

#[test]
fn engineer_query_context_holds_role_and_salary() {
    let records = vec![jane()];
    let query = "Who is the engineer?";
    let docs = stub_top_n(&records, query, 4);
    assert_eq!(docs[0], jane());
    let p = augmented_prompt(&docs, query);
    assert!(p.contains("Role: Engineer"));
    assert!(p.contains("Salary: 90000"));
}

#[test]
fn history_starts_empty() {
    let s = Session::new();
    assert_eq!(s.history_len(), 0);
    assert!(s.history_to_send().is_empty());
}

#[test]
fn reset_then_question_sends_empty_history() {
    let mut s = Session::new();
    s.record_exchange(String::from("first prompt"), String::from("first answer"));
    assert_eq!(s.history_len(), 2);
    s.reset();
    let sent = s.history_to_send();
    assert_eq!(sent.len(), 0);
}

#[test]
fn second_question_sends_one_full_exchange() {
    let mut s = Session::new();
    let first = s.history_to_send();
    assert_eq!(first.len(), 0);
    s.record_exchange(
        String::from("augmented first prompt"),
        String::from("first answer"),
    );
    let sent = s.history_to_send();
    assert_eq!(sent.len(), 2);
    assert_eq!(sent[0].role, Role::User);
    assert_eq!(sent[0].content, "augmented first prompt");
    assert_eq!(sent[1].role, Role::Assistant);
    assert_eq!(sent[1].content, "first answer");
}

#[test]
fn history_records_augmented_prompt_not_raw_input() {
    let mut s = Session::new();
    let docs = vec![jane()];
    let raw = "Who is the engineer?";
    let augmented = augmented_prompt(&docs, raw);
    s.record_exchange(augmented.clone(), String::from("Jane Doe is."));
    let sent = s.history_to_send();
    assert_eq!(sent[0].content, augmented);
    assert_ne!(sent[0].content, raw);
}

#[test]
fn quit_makes_no_service_call() {
    let inputs = ["quit", "would be a question"];
    let records = vec![jane()];
    let mut session = Session::new();
    let mut service_calls: usize = 0;
    for input in inputs {
        match classify(input) {
            Command::Quit => break,
            Command::Reset => session.reset(),
            Command::Ask => {
                let docs = stub_top_n(&records, input, 4);
                let prompt = augmented_prompt(&docs, input);
                service_calls += 1;
                session.record_exchange(prompt, String::from("stub answer"));
            }
        }
    }
    assert_eq!(service_calls, 0);
    assert_eq!(session.history_len(), 0);
}

#[test]
fn turn_constructors_set_roles() {
    let u = ChatTurn::user(String::from("q"));
    let a = ChatTurn::assistant(String::from("r"));
    assert_eq!(u.role, Role::User);
    assert_eq!(u.content, "q");
    assert_eq!(a.role, Role::Assistant);
    assert_eq!(a.content, "r");
}
