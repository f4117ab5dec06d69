use sapiens::bot::{split_message, split_messages, MESSAGE_LIMIT};

#[test]
fn a_short_text_is_one_message() {
    assert_eq!(split_message("hello", MESSAGE_LIMIT), vec!["hello"]);
    assert_eq!(split_message("", MESSAGE_LIMIT), vec![""]);
    assert_eq!(split_message(&"a".repeat(2000), MESSAGE_LIMIT), vec!["a".repeat(2000)]);
}

#[test]
fn a_long_text_is_split_at_the_limit() {
    let text = format!("{}{}{}", "a".repeat(2000), "b".repeat(2000), "c".repeat(7));
    assert_eq!(
        split_message(&text, MESSAGE_LIMIT),
        vec!["a".repeat(2000), "b".repeat(2000), "c".repeat(7)]
    );
    let text = format!("{}{}", "a".repeat(2000), "b");
    assert_eq!(split_message(&text, MESSAGE_LIMIT), vec!["a".repeat(2000), "b".to_string()]);
}

#[test]
fn a_text_is_split_where_a_character_ends() {
    // each of these characters takes two bytes
    assert_eq!(split_message("ééééé", 5), vec!["éé", "éé", "é"]);
    assert_eq!(split_message("aéééé", 5), vec!["aéé", "éé"]);
    // a character of four bytes does not fit in three
    assert_eq!(split_message("a😀b", 3), vec!["a", "😀", "b"]);
    assert_eq!(split_message("😀😀", 1), vec!["😀", "😀"]);
    assert_eq!(split_message("ab", 0), vec!["a", "b"]);
}

#[test]
fn the_pieces_are_the_text() {
    let text = "Voilà: l'été à Noël, ça coûte 😀 cher! ".repeat(120);
    let pieces = split_message(&text, 100);
    assert_eq!(pieces.concat(), text);
    assert!(pieces.iter().all(|p| !p.is_empty() && p.len() <= 100));
    assert!(pieces[..pieces.len() - 1].iter().all(|p| p.len() > 96));
}

#[test]
fn several_texts_are_split_in_order() {
    let texts = vec!["one".to_string(), "x".repeat(4500), String::new(), "two".to_string()];
    assert_eq!(
        split_messages(&texts, MESSAGE_LIMIT),
        vec!["one".to_string(), "x".repeat(2000), "x".repeat(2000), "x".repeat(500), String::new(), "two".to_string()]
    );
    assert!(split_messages(&vec![], MESSAGE_LIMIT).is_empty());
}

#[test]
fn every_piece_is_within_a_limit_of_four_bytes() {
    let text = "a😀é😀😀b€€c😀éé€a".repeat(3);
    for limit in 4..12 {
        let pieces = split_message(&text, limit);
        assert_eq!(pieces.concat(), text);
        assert!(pieces.iter().all(|p| !p.is_empty() && p.len() <= limit), "{}: {:?}", limit, pieces);
    }
    let texts = vec![text.clone(), "€".repeat(5), "😀".to_string()];
    let pieces = split_messages(&texts, 4);
    assert_eq!(pieces.concat(), texts.concat());
    assert!(pieces.iter().all(|p| p.len() <= 4));
    // the whole of a text of 2000 bytes is one message, and no piece is longer
    let long = "😀".repeat(1200);
    let pieces = split_message(&long, MESSAGE_LIMIT);
    assert_eq!(pieces, vec!["😀".repeat(500), "😀".repeat(500), "😀".repeat(200)]);
}
