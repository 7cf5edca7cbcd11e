use layout_converter::combine_maps;
use layout_converter::convert_text;
use layout_converter::create_keymaps;
use layout_converter::invert_map;
use layout_converter::parallel_convert_text;
use layout_converter::qwerty_to_colemak;
use layout_converter::qwerty_to_dvorak;
use layout_converter::qwerty_to_russian;
use layout_converter::KeymapStore;
use layout_converter::LayoutCode;
use layout_converter::TextSchema;

fn store() -> KeymapStore {
    create_keymaps().expect("the authored seed tables are well-formed")
}

#[test]
fn keymaps_build() {
    assert!(create_keymaps().is_some());
}

#[test]
fn seed_tables_hold_the_authored_pairs() {
    let dv = qwerty_to_dvorak();
    assert_eq!(dv.get('q'), Some('\''));
    assert_eq!(dv.get('s'), Some('o'));
    assert_eq!(dv.get('+'), Some('}'));
    assert_eq!(dv.get('a'), None);
    let co = qwerty_to_colemak();
    assert_eq!(co.get('e'), Some('f'));
    assert_eq!(co.get('h'), Some('h'));
    assert_eq!(co.get('q'), None);
    let ru = qwerty_to_russian();
    assert_eq!(ru.get('q'), Some('й'));
    assert_eq!(ru.get('M'), Some('Ь'));
    assert_eq!(ru.get('='), None);
}

#[test]
fn inversion_swaps_keys_and_values() {
    let inv = invert_map(&qwerty_to_dvorak());
    assert_eq!(inv.get('\''), Some('q'));
    assert_eq!(inv.get('o'), Some('s'));
    assert_eq!(inv.get('a'), None);
}

#[test]
fn combination_chains_two_tables() {
    let dvorak_to_qwerty = invert_map(&qwerty_to_dvorak());
    let dvorak_to_colemak = combine_maps(&dvorak_to_qwerty, &qwerty_to_colemak());
    // '.' keys 'e' on Qwerty, which keys 'f' on Colemak.
    assert_eq!(dvorak_to_colemak.get('.'), Some('f'));
    // '\'' keys 'q' on Qwerty, which Colemak leaves unchanged.
    assert_eq!(dvorak_to_colemak.get('\''), Some('q'));
}

#[test]
fn hello_converts_to_dvorak() {
    let km = store();
    let out = convert_text("hello".to_string(), LayoutCode::Qwerty, LayoutCode::Dvorak, &km);
    assert_eq!(out, "d.nnr");
    let out = parallel_convert_text(
        "hello".to_string(),
        LayoutCode::Qwerty,
        LayoutCode::Dvorak,
        &km,
    );
    assert_eq!(out, "d.nnr");
}

#[test]
fn hello_converts_to_russian() {
    let km = store();
    let out = convert_text("hello".to_string(), LayoutCode::Qwerty, LayoutCode::Russian, &km);
    assert_eq!(out, "руддщ");
}

#[test]
fn conversion_round_trips() {
    let km = store();
    let out = convert_text("d.nnr".to_string(), LayoutCode::Dvorak, LayoutCode::Qwerty, &km);
    assert_eq!(out, "hello");
    let there = convert_text(
        "Hello, World!".to_string(),
        LayoutCode::Qwerty,
        LayoutCode::Dvorak,
        &km,
    );
    let back = convert_text(there, LayoutCode::Dvorak, LayoutCode::Qwerty, &km);
    assert_eq!(back, "Hello, World!");
    let there = convert_text(
        "Hello, World!".to_string(),
        LayoutCode::Qwerty,
        LayoutCode::Russian,
        &km,
    );
    let back = convert_text(there, LayoutCode::Russian, LayoutCode::Qwerty, &km);
    assert_eq!(back, "Hello, World!");
}

#[test]
fn colemak_inverse_uses_last_entry_for_repeated_values() {
    // The Colemak table sends both 'r' and ';' to 'p', so its inverse picks
    // the later entry: 'p' maps back to ';', deterministically.
    let inv = invert_map(&qwerty_to_colemak());
    assert_eq!(inv.get('p'), Some(';'));
    assert_eq!(inv.get('P'), Some(':'));
    let km = store();
    let out = convert_text("r".to_string(), LayoutCode::Qwerty, LayoutCode::Colemak, &km);
    assert_eq!(out, "p");
    let back = convert_text(out, LayoutCode::Colemak, LayoutCode::Qwerty, &km);
    assert_eq!(back, ";");
}

#[test]
fn same_layout_is_identity() {
    let km = store();
    let out = convert_text("hello".to_string(), LayoutCode::Dvorak, LayoutCode::Dvorak, &km);
    assert_eq!(out, "hello");
    let out = parallel_convert_text(
        "привет".to_string(),
        LayoutCode::Russian,
        LayoutCode::Russian,
        &km,
    );
    assert_eq!(out, "привет");
}

#[test]
fn conversion_preserves_length() {
    let km = store();
    let input = "The quick brown fox; jumps over 13 lazy dogs?";
    let out = convert_text(input.to_string(), LayoutCode::Qwerty, LayoutCode::Russian, &km);
    assert_eq!(out.chars().count(), input.chars().count());
    let out = convert_text(input.to_string(), LayoutCode::Qwerty, LayoutCode::Dvorak, &km);
    assert_eq!(out.chars().count(), input.chars().count());
}

#[test]
fn unmapped_characters_pass_through() {
    let km = store();
    // None of these characters has an entry in the Qwerty-to-Dvorak table.
    let input = "am a 0123";
    let out = convert_text(input.to_string(), LayoutCode::Qwerty, LayoutCode::Dvorak, &km);
    assert_eq!(out, input);
}

#[test]
fn composite_falls_back_to_hub_character() {
    let km = store();
    // The Russian key 'й' sits on Qwerty's 'q', which Colemak leaves
    // unchanged, so the hub character itself is the visible output.
    let out = convert_text("й".to_string(), LayoutCode::Russian, LayoutCode::Colemak, &km);
    assert_eq!(out, "q");
    // A mapped chain: Dvorak '.' keys Qwerty 'e', which keys Colemak 'f'.
    let out = convert_text(".".to_string(), LayoutCode::Dvorak, LayoutCode::Colemak, &km);
    assert_eq!(out, "f");
}

#[test]
fn missing_table_returns_input_unchanged() {
    let empty = KeymapStore { entries: Vec::new() };
    let out = convert_text("abc".to_string(), LayoutCode::Qwerty, LayoutCode::Dvorak, &empty);
    assert_eq!(out, "abc");
}

#[test]
fn lookup_has_no_same_layout_entry() {
    let km = store();
    assert!(km.lookup(LayoutCode::Qwerty, LayoutCode::Qwerty).is_none());
    assert!(km.lookup(LayoutCode::Qwerty, LayoutCode::Dvorak).is_some());
    assert!(km.lookup(LayoutCode::Russian, LayoutCode::Colemak).is_some());
}

fn text_of_chars(n: usize) -> String {
    "hello, world! ".chars().cycle().take(n).collect()
}

#[test]
fn chunked_conversion_matches_sequential() {
    let km = store();
    for n in [0, 1, 999, 1000, 1001, 1002, 4003] {
        let input = text_of_chars(n);
        let seq = convert_text(input.clone(), LayoutCode::Qwerty, LayoutCode::Dvorak, &km);
        let par = parallel_convert_text(input, LayoutCode::Qwerty, LayoutCode::Dvorak, &km);
        assert_eq!(seq, par);
    }
}

#[test]
fn chunked_conversion_matches_sequential_on_wide_characters() {
    let km = store();
    let input: String = "йцукен гшщз".chars().cycle().take(2345).collect();
    let seq = convert_text(input.clone(), LayoutCode::Russian, LayoutCode::Qwerty, &km);
    let par = parallel_convert_text(input.clone(), LayoutCode::Russian, LayoutCode::Qwerty, &km);
    assert_eq!(seq, par);
    assert_eq!(seq.chars().count(), input.chars().count());
}

#[test]
fn request_schema_flows_through_conversion() {
    let km = store();
    let request = TextSchema {
        text: "hello".to_string(),
        from: "QWERTY".to_string(),
        to: "dvorak".to_string(),
    };
    let from = LayoutCode::from_str(&request.from).unwrap();
    let to = LayoutCode::from_str(&request.to).unwrap();
    let out = convert_text(request.text, from, to, &km);
    assert_eq!(out, "d.nnr");
}
