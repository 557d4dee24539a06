use recoil_control::codec::{load_operators, save_operators};
use recoil_control::operators::Operator;

fn op(name: &str, default_strength: i32, current_strength: i32) -> Operator {
    Operator { name: name.to_string(), default_strength, current_strength }
}

fn assert_same(a: &[Operator], b: &[Operator]) {
    assert_eq!(a.len(), b.len());
    for (x, y) in a.iter().zip(b.iter()) {
        assert_eq!(x.name, y.name);
        assert_eq!(x.default_strength, y.default_strength);
        assert_eq!(x.current_strength, y.current_strength);
    }
}

#[test]
fn save_prints_the_exact_text() {
    let ops = vec![op("Ash", 2, 2), op("Mira", 4, 4)];
    let text = save_operators(&ops);
    assert_eq!(
        text,
        "[\n  {\"name\": \"Ash\", \"default_strength\": 2, \"current_strength\": 2},\n  {\"name\": \"Mira\", \"default_strength\": 4, \"current_strength\": 4}\n]"
    );
}

#[test]
fn save_prints_two_digit_strengths() {
    let ops = vec![op("Doc", 20, 10)];
    let text = save_operators(&ops);
    assert_eq!(
        text,
        "[\n  {\"name\": \"Doc\", \"default_strength\": 20, \"current_strength\": 10}\n]"
    );
}

#[test]
fn save_escapes_quotes_and_backslashes() {
    let ops = vec![op("A\"B\\C", 1, 2)];
    let text = save_operators(&ops);
    assert_eq!(
        text,
        "[\n  {\"name\": \"A\\\"B\\\\C\", \"default_strength\": 1, \"current_strength\": 2}\n]"
    );
}

#[test]
fn save_of_the_empty_list() {
    let text = save_operators(&Vec::new());
    assert_eq!(text, "[\n]");
}

#[test]
fn save_then_load_reproduces_the_values() {
    let ops = vec![op("Ash", 2, 2), op("Mira", 4, 10), op("Doc", 3, 0), op("", 0, 20)];
    let text = save_operators(&ops);
    let back = load_operators(&text).expect("saved text must load");
    assert_same(&ops, &back);
}

#[test]
fn save_then_load_reproduces_escaped_names() {
    let ops = vec![op("quote \" and \\ slash", 5, 6)];
    let text = save_operators(&ops);
    let back = load_operators(&text).expect("saved text must load");
    assert_same(&ops, &back);
}

#[test]
fn save_then_load_reproduces_non_ascii_names() {
    let ops = vec![op("J\u{e4}ger", 8, 9), op("Tach\u{e1}nka", 12, 12)];
    let text = save_operators(&ops);
    let back = load_operators(&text).expect("saved text must load");
    assert_same(&ops, &back);
}

#[test]
fn load_of_the_empty_list() {
    let back = load_operators("[\n]").expect("empty list must load");
    assert!(back.is_empty());
}

#[test]
fn load_reads_values_back() {
    let text = "[\n  {\"name\": \"Ash\", \"default_strength\": 2, \"current_strength\": 7}\n]";
    let back = load_operators(text).expect("well-formed text must load");
    assert_same(&[op("Ash", 2, 7)], &back);
}

#[test]
fn load_rejects_malformed_texts() {
    let bad = [
        "",
        "[",
        "[]",
        "[\n",
        "[\n]x",
        "[\n  {\"name\": \"A\", \"default_strength\": 1, \"current_strength\": 2}",
        "[\n  {\"name\": \"A\", \"default_strength\": 1, \"current_strength\": 2}\n]x",
        "[\n  {\"name\": \"A\", \"default_strength\": , \"current_strength\": 2}\n]",
        "[\n  {\"name\": \"A\", \"default_strength\": 1}\n]",
        "[\n  {\"nome\": \"A\", \"default_strength\": 1, \"current_strength\": 2}\n]",
        "[\n  {\"name\": \"A, \"default_strength\": 1, \"current_strength\": 2}\n]",
    ];
    for text in bad {
        assert!(load_operators(text).is_err(), "accepted: {text:?}");
    }
}

#[test]
fn load_rejects_out_of_range_strengths() {
    let too_big = "[\n  {\"name\": \"A\", \"default_strength\": 21, \"current_strength\": 2}\n]";
    assert!(load_operators(too_big).is_err());
    let three_digits = "[\n  {\"name\": \"A\", \"default_strength\": 100, \"current_strength\": 2}\n]";
    assert!(load_operators(three_digits).is_err());
}
