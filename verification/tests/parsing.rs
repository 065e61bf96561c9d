use wordasm::err::AsmError;
use wordasm::err::ErrorKind;
use wordasm::image::{word_from_bytes, Image};
use wordasm::parse::{parse_hex_lit_num, parse_regs};
use wordasm::session::assemble;
use wordasm::symbols::{File, FileSystem, Routine, Variable};
use wordasm::text::{str_eq, tokenize};

fn toks(words: &[&str]) -> Vec<String> {
    words.iter().map(|w| w.to_string()).collect()
}

#[test]
fn tokenizer_splits_on_single_spaces() {
    let t = tokenize("load A num 5");
    assert_eq!(t, vec!["load", "A", "num", "5"]);
    let t = tokenize("");
    assert_eq!(t, vec![""]);
    let t = tokenize("a  b");
    assert_eq!(t, vec!["a", "", "b"]);
}

#[test]
fn string_equality_is_exact() {
    assert!(str_eq("end", "end"));
    assert!(!str_eq("end", "End"));
    assert!(!str_eq("end", "end "));
}

#[test]
fn register_letters() {
    assert_eq!(parse_regs(&toks(&["load", "A"]), 1, 1).unwrap(), 0x41);
    assert_eq!(parse_regs(&toks(&["load", "D"]), 1, 1).unwrap(), 0x44);
    let e = parse_regs(&toks(&["load", "E"]), 3, 1).unwrap_err();
    assert_eq!(e.line, 3);
    assert_eq!(e.kind, ErrorKind::Lookup);
    let e = parse_regs(&toks(&["load"]), 3, 1).unwrap_err();
    assert_eq!(e.kind, ErrorKind::Arity);
}

#[test]
fn hex_form_takes_the_character_ordinal() {
    assert_eq!(parse_hex_lit_num(&toks(&["x", "hex", "Z"]), 1, 1, 0).unwrap(), 0x5A);
    assert_eq!(parse_hex_lit_num(&toks(&["x", "hex", "0"]), 1, 1, 0).unwrap(), 0x30);
}

#[test]
fn lit_form_takes_one_hex_nibble() {
    assert_eq!(parse_hex_lit_num(&toks(&["x", "lit", "F"]), 1, 1, 0).unwrap(), 15);
    assert_eq!(parse_hex_lit_num(&toks(&["x", "lit", "0xA"]), 1, 1, 0).unwrap(), 10);
    assert_eq!(parse_hex_lit_num(&toks(&["x", "lit", "7"]), 1, 1, 0).unwrap(), 7);
    // A digit above F is rejected as out of range.
    assert!(parse_hex_lit_num(&toks(&["x", "lit", "G"]), 1, 1, 0).is_err());
    assert!(parse_hex_lit_num(&toks(&["x", "lit", "10"]), 1, 1, 0).is_err());
}

#[test]
fn num_form_takes_a_16_bit_decimal() {
    assert_eq!(parse_hex_lit_num(&toks(&["x", "num", "65535"]), 1, 1, 0).unwrap(), 65535);
    assert_eq!(parse_hex_lit_num(&toks(&["x", "num", "0"]), 1, 1, 0).unwrap(), 0);
    let e = parse_hex_lit_num(&toks(&["x", "num", "65536"]), 1, 1, 0).unwrap_err();
    assert_eq!(e.kind, ErrorKind::Domain);
    let e = parse_hex_lit_num(&toks(&["x", "num", "12a"]), 1, 1, 0).unwrap_err();
    assert_eq!(e.kind, ErrorKind::Type);
    // A non-digit anywhere is a type fault, even past an over-long prefix.
    let e = parse_hex_lit_num(&toks(&["x", "num", "70000x"]), 1, 1, 0).unwrap_err();
    assert_eq!(e.kind, ErrorKind::Type);
}

#[test]
fn missing_annotation_is_a_type_fault() {
    let e = parse_hex_lit_num(&toks(&["x", "what", "5"]), 1, 1, 0).unwrap_err();
    assert_eq!(e.kind, ErrorKind::Type);
}

#[test]
fn error_column_sums_earlier_token_widths() {
    let e = AsmError::at(ErrorKind::Lookup, &toks(&["load", "E", "num", "5"]), 9, 1);
    // One space for each separator plus the width of every earlier token.
    assert_eq!(e.position, 1 + 1 + 4);
    assert_eq!(e.token, "E");
    assert_eq!(e.line, 9);
}

#[test]
fn serialized_image_is_big_endian() {
    let img = Image::new_boot();
    let bytes = img.to_bytes();
    assert_eq!(bytes.len(), 131072);
    // 0x0200 holds 'A' (0x0041): high byte first.
    assert_eq!(bytes[2 * 0x0200], 0x00);
    assert_eq!(bytes[2 * 0x0200 + 1], 0x41);
}

#[test]
fn bootstrap_region_round_trips_through_serialization() {
    let text = "routine: entry\nctrl cpu halt\nend\n";
    let out = assemble(text).unwrap();
    let bytes = out.image.to_bytes();
    let mut expected = vec![0u16; 0x52];
    for i in 0..26 {
        expected[i] = 0x41 + i as u16; // 'A' to 'Z'
        expected[0x20 + i] = 0x61 + i as u16; // 'a' to 'z'
    }
    for i in 0..9 {
        expected[0x40 + i] = 0x30 + i as u16; // '0' to '8'
    }
    let punct1: [u16; 6] = [0x21, 0x22, 0x23, 0x24, 0x5B, 0x5D]; // !"#$[]
    let punct2: [u16; 6] = [0x2F, 0x3C, 0x3E, 0x3D, 0x2D, 0x7E]; // /<>=-~
    let punct3: [u16; 6] = [0x3A, 0x5F, 0x7C, 0x26, 0x3F, 0x40]; // :_|&?@
    for i in 0..6 {
        expected[0x1A + i] = punct1[i];
        expected[0x3A + i] = punct2[i];
        expected[0x4A + i] = punct3[i];
    }
    expected[0x50] = 0x20; // space
    expected[0x51] = 0x2E; // '.'
    for (i, want) in expected.iter().enumerate() {
        let addr = 0x0200 + i;
        assert_eq!(word_from_bytes(&bytes, addr), *want, "at {addr:#06X}");
    }
}

#[test]
fn display_buffer_is_idle_filled() {
    let out = assemble("routine: entry\nctrl cpu halt\nend\n").unwrap();
    for a in 0x0300..0x1000usize {
        assert_eq!(out.image.words[a], 0xA000);
    }
}

#[test]
fn symbol_constructors() {
    let f = File::new("boot".to_string(), 2, 16);
    assert_eq!(f.name, "boot");
    assert_eq!(f.fs_index, 2);
    assert_eq!(f.size, 16);
    assert!(f.words.is_empty());

    let fs = FileSystem::new(0x1234);
    assert_eq!(fs.startpoint, 0x1234);
    assert_eq!(fs.total_size(), 0);
    assert!(!fs.size_initialized);
    assert!(fs.get_file_by_index(0).is_none());

    let r = Routine::new("main".to_string(), 0x1002);
    assert_eq!(r.name, "main");
    assert_eq!(r.address, 0x1002);
    assert_eq!(r.length, 0);
    assert!(r.instructions.is_empty());

    let v = Variable::new("k".to_string(), 5);
    assert_eq!(v.name, "k");
    assert_eq!(v.address, 5);
    assert_eq!(v.value, 0);
}

#[test]
fn file_lookup_by_index() {
    let mut fs = FileSystem::new(0);
    fs.content.push(File::new("a".to_string(), 0, 1));
    let got = fs.get_file_by_index(0).unwrap();
    assert_eq!(got.name, "a");
    assert!(fs.get_file_by_index(1).is_none());
}
