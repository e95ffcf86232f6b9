use conflicting::conflicting;
use conflicting::generate::generate;
use conflicting::input::{ConflictingInput, ErrorKind, Token};

fn gate(label: &str) -> Token {
    Token::Str(String::from(label))
}

/// `"a" => { .. }, "b" => { .. }, "c" => { .. },` — three blocks, each with
/// a diagnostic against the two other gates, six diagnostics in all.
#[test]
fn three_gates_full_pairing() {
    let tokens = vec![
        gate("a"), Token::FatArrow, Token::Body(0), Token::Comma,
        gate("b"), Token::FatArrow, Token::Body(1), Token::Comma,
        gate("c"), Token::FatArrow, Token::Body(2), Token::Comma,
    ];
    let blocks = conflicting(&tokens).unwrap();
    assert_eq!(blocks.len(), 3);

    let names = ["a", "b", "c"];
    let mut total = 0;
    for (i, block) in blocks.iter().enumerate() {
        assert_eq!(block.gate.as_str(), names[i]);
        assert_eq!(block.body, i);
        assert_eq!(block.conflicts.len(), 2);
        total += block.conflicts.len();
    }
    assert_eq!(total, 6);

    assert_eq!(blocks[0].conflicts[0].gate.as_str(), "b");
    assert_eq!(blocks[0].conflicts[0].message.as_str(), "a conflicts with b");
    assert_eq!(blocks[0].conflicts[1].gate.as_str(), "c");
    assert_eq!(blocks[0].conflicts[1].message.as_str(), "a conflicts with c");
    assert_eq!(blocks[1].conflicts[0].gate.as_str(), "a");
    assert_eq!(blocks[1].conflicts[0].message.as_str(), "b conflicts with a");
    assert_eq!(blocks[1].conflicts[1].gate.as_str(), "c");
    assert_eq!(blocks[1].conflicts[1].message.as_str(), "b conflicts with c");
    assert_eq!(blocks[2].conflicts[0].gate.as_str(), "a");
    assert_eq!(blocks[2].conflicts[0].message.as_str(), "c conflicts with a");
    assert_eq!(blocks[2].conflicts[1].gate.as_str(), "b");
    assert_eq!(blocks[2].conflicts[1].message.as_str(), "c conflicts with b");
}

/// `"a" => { 1 }` — a single item without the trailing comma parses, and its
/// block carries no diagnostics.
#[test]
fn single_item_without_trailing_comma() {
    let tokens = vec![gate("a"), Token::FatArrow, Token::Body(0)];
    let blocks = conflicting(&tokens).unwrap();
    assert_eq!(blocks.len(), 1);
    assert_eq!(blocks[0].gate.as_str(), "a");
    assert_eq!(blocks[0].body, 0);
    assert_eq!(blocks[0].conflicts.len(), 0);
}

/// A single item with the trailing comma is just as legal.
#[test]
fn single_item_with_trailing_comma() {
    let tokens = vec![gate("a"), Token::FatArrow, Token::Body(0), Token::Comma];
    let blocks = conflicting(&tokens).unwrap();
    assert_eq!(blocks.len(), 1);
    assert_eq!(blocks[0].conflicts.len(), 0);
}

/// `"a" => { 1 } "b" => { 2 }` — the comma omitted between non-final items
/// is a syntax error anchored at the first segment's gate token.
#[test]
fn missing_comma_between_items() {
    let tokens = vec![
        gate("a"), Token::FatArrow, Token::Body(0),
        gate("b"), Token::FatArrow, Token::Body(1),
    ];
    let err = conflicting(&tokens).unwrap_err();
    assert_eq!(err.kind, ErrorKind::ExpectedComma);
    assert_eq!(err.pos, 0);
}

/// The same omission on a later non-final segment is anchored at that
/// segment's gate token.
#[test]
fn missing_comma_on_second_segment() {
    let tokens = vec![
        gate("a"), Token::FatArrow, Token::Body(0), Token::Comma,
        gate("b"), Token::FatArrow, Token::Body(1),
        gate("c"), Token::FatArrow, Token::Body(2),
    ];
    let err = conflicting(&tokens).unwrap_err();
    assert_eq!(err.kind, ErrorKind::ExpectedComma);
    assert_eq!(err.pos, 4);
}

/// An empty stream is legal and generates empty output.
#[test]
fn empty_input() {
    let tokens: Vec<Token> = Vec::new();
    let blocks = conflicting(&tokens).unwrap();
    assert_eq!(blocks.len(), 0);
}

/// `"a" => {1}, "a" => {2},` — duplicate gates are legal; the two blocks
/// each carry one diagnostic against the other occurrence of the same label.
#[test]
fn duplicate_gates_conflict_with_each_other() {
    let tokens = vec![
        gate("a"), Token::FatArrow, Token::Body(0), Token::Comma,
        gate("a"), Token::FatArrow, Token::Body(1), Token::Comma,
    ];
    let blocks = conflicting(&tokens).unwrap();
    assert_eq!(blocks.len(), 2);
    assert_eq!(blocks[0].gate.as_str(), "a");
    assert_eq!(blocks[1].gate.as_str(), "a");
    assert_eq!(blocks[0].body, 0);
    assert_eq!(blocks[1].body, 1);
    assert_eq!(blocks[0].conflicts.len(), 1);
    assert_eq!(blocks[1].conflicts.len(), 1);
    assert_eq!(blocks[0].conflicts[0].message.as_str(), "a conflicts with a");
    assert_eq!(blocks[1].conflicts[0].message.as_str(), "a conflicts with a");
}

/// With distinct labels, no block carries a diagnostic under its own gate.
#[test]
fn no_self_conflict_with_distinct_gates() {
    let tokens = vec![
        gate("x"), Token::FatArrow, Token::Body(0), Token::Comma,
        gate("y"), Token::FatArrow, Token::Body(1), Token::Comma,
    ];
    let blocks = conflicting(&tokens).unwrap();
    for block in &blocks {
        for c in &block.conflicts {
            assert_ne!(c.gate, block.gate);
        }
    }
}

/// Re-running generation on an identical input gives an identical output.
#[test]
fn generation_is_deterministic() {
    let tokens = vec![
        gate("a"), Token::FatArrow, Token::Body(0), Token::Comma,
        gate("b"), Token::FatArrow, Token::Body(1), Token::Comma,
    ];
    let first = conflicting(&tokens).unwrap();
    let second = conflicting(&tokens).unwrap();
    assert_eq!(first.len(), second.len());
    for (x, y) in first.iter().zip(second.iter()) {
        assert_eq!(x.gate, y.gate);
        assert_eq!(x.body, y.body);
        assert_eq!(x.conflicts.len(), y.conflicts.len());
        for (c, d) in x.conflicts.iter().zip(y.conflicts.iter()) {
            assert_eq!(c.gate, d.gate);
            assert_eq!(c.message, d.message);
        }
    }
}

/// A segment that does not begin with a string literal is an error at that
/// token.
#[test]
fn expected_gate_error() {
    let tokens = vec![Token::Comma];
    let err = conflicting(&tokens).unwrap_err();
    assert_eq!(err.kind, ErrorKind::ExpectedGate);
    assert_eq!(err.pos, 0);
}

/// A gate not followed by the connective is an error at the token after the
/// gate, also when the input simply ends there.
#[test]
fn expected_fat_arrow_error() {
    let tokens = vec![gate("a"), Token::Comma];
    let err = conflicting(&tokens).unwrap_err();
    assert_eq!(err.kind, ErrorKind::ExpectedFatArrow);
    assert_eq!(err.pos, 1);

    let tokens = vec![gate("a")];
    let err = conflicting(&tokens).unwrap_err();
    assert_eq!(err.kind, ErrorKind::ExpectedFatArrow);
    assert_eq!(err.pos, 1);
}

/// A connective not followed by a body is an error at the token after the
/// connective, also when the input simply ends there.
#[test]
fn expected_body_error() {
    let tokens = vec![gate("a"), Token::FatArrow, Token::Comma];
    let err = conflicting(&tokens).unwrap_err();
    assert_eq!(err.kind, ErrorKind::ExpectedBody);
    assert_eq!(err.pos, 2);

    let tokens = vec![gate("a"), Token::FatArrow];
    let err = conflicting(&tokens).unwrap_err();
    assert_eq!(err.kind, ErrorKind::ExpectedBody);
    assert_eq!(err.pos, 2);
}

/// The parser keeps source order and the body handles of every segment.
#[test]
fn parse_preserves_order() {
    let tokens = vec![
        gate("one"), Token::FatArrow, Token::Body(7), Token::Comma,
        gate("two"), Token::FatArrow, Token::Body(3), Token::Comma,
        gate("three"), Token::FatArrow, Token::Body(5),
    ];
    let parsed = ConflictingInput::parse(&tokens).unwrap();
    assert_eq!(parsed.items.len(), 3);
    assert_eq!(parsed.items[0].gate.as_str(), "one");
    assert_eq!(parsed.items[0].body, 7);
    assert_eq!(parsed.items[1].gate.as_str(), "two");
    assert_eq!(parsed.items[1].body, 3);
    assert_eq!(parsed.items[2].gate.as_str(), "three");
    assert_eq!(parsed.items[2].body, 5);

    let blocks = generate(&parsed);
    assert_eq!(blocks.len(), 3);
    assert_eq!(blocks[2].conflicts[0].message.as_str(), "three conflicts with one");
    assert_eq!(blocks[2].conflicts[1].message.as_str(), "three conflicts with two");
}

/// The first structural fault aborts the whole parse: nothing after it is
/// looked at, and the error is the first segment's.
#[test]
fn first_error_wins() {
    let tokens = vec![
        gate("a"), Token::FatArrow, Token::Body(0),
        Token::Comma, Token::Comma,
    ];
    // The first segment lacks its comma only if more input remains; here the
    // comma is present, so the fault is the bare comma that follows.
    let err = conflicting(&tokens).unwrap_err();
    assert_eq!(err.kind, ErrorKind::ExpectedGate);
    assert_eq!(err.pos, 4);
}
