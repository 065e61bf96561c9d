use wordasm::opcodes;
use wordasm::session::assemble;

fn src(lines: &[&str]) -> String {
    let mut s = String::new();
    for l in lines {
        s.push_str(l);
        s.push('\n');
    }
    s
}

#[test]
fn constant_declarations_land_at_declaration_order_addresses() {
    let text = src(&[
        "routine: entry",
        "var foo = num 5",
        "var bar = num 7",
        "var baz = hex A",
        "end",
    ]);
    let out = assemble(&text).unwrap();
    assert_eq!(out.variables.len(), 3);
    assert_eq!(out.variables[0].address, 0);
    assert_eq!(out.variables[1].address, 1);
    assert_eq!(out.variables[2].address, 2);
    assert_eq!(out.variables[0].value, 5);
    assert_eq!(out.variables[1].value, 7);
    assert_eq!(out.variables[2].value, 0x41);
    assert_eq!(out.image.words[0], 5);
    assert_eq!(out.image.words[1], 7);
    assert_eq!(out.image.words[2], 0x41);
}

#[test]
fn block_length_and_placement_follow_the_allocator() {
    let text = src(&[
        "routine: first",
        "ctrl cpu halt",
        "inpt",
        "end",
        "routine: entry",
        "rtor",
        "end",
    ]);
    let out = assemble(&text).unwrap();
    // first: two words at 0x1002; entry: one word at 0x1002 + 2 + 1.
    assert_eq!(out.routines[0].length, 2);
    assert_eq!(out.routines[0].instructions.len(), 2);
    assert_eq!(out.routines[0].address, 0x1002);
    assert_eq!(out.routines[1].length, 1);
    assert_eq!(out.routines[1].address, 0x1005);
    assert_eq!(out.image.words[0x1002], opcodes::HALT_LOOP);
    assert_eq!(out.image.words[0x1003], opcodes::AWAIT_INP);
    assert_eq!(out.image.words[0x1005], opcodes::RET_TO_OR);
}

#[test]
fn entry_stub_calls_last_closed_block() {
    let text = src(&[
        "routine: first",
        "inpt",
        "end",
        "routine: entry",
        "ctrl cpu halt",
        "end",
    ]);
    let out = assemble(&text).unwrap();
    assert_eq!(out.image.words[0x1000], opcodes::JMP_TO_SR);
    assert_eq!(out.image.words[0x1001], 0x1004);
}

#[test]
fn forward_reference_resolves_to_zero() {
    let text = src(&[
        "routine: main",
        "jump loop",
        "end",
        "routine: loop",
        "ctrl cpu halt",
        "end",
    ]);
    let out = assemble(&text).unwrap();
    // `loop` is declared later in the source: the target silently resolves
    // to address 0, not to loop's real address.
    assert_eq!(out.routines[0].instructions, vec![opcodes::JMP_TO_AD, 0x0000]);
    assert_eq!(out.image.words[0x1002], opcodes::JMP_TO_AD);
    assert_eq!(out.image.words[0x1003], 0x0000);
}

#[test]
fn backward_reference_resolves_to_real_address() {
    let text = src(&[
        "routine: loop",
        "ctrl cpu halt",
        "end",
        "routine: main",
        "jump loop",
        "end",
    ]);
    let out = assemble(&text).unwrap();
    assert_eq!(out.routines[1].instructions, vec![opcodes::JMP_TO_AD, 0x1002]);
}

#[test]
fn minimal_halt_program_touches_only_stub_and_halt() {
    let text = src(&["routine: entry", "ctrl cpu halt", "end"]);
    let out = assemble(&text).unwrap();
    for a in 0..65536usize {
        let w = out.image.words[a];
        let in_glyphs = (0x0200..=0x0251).contains(&a);
        let in_display = (0x0300..0x1000).contains(&a);
        if in_glyphs || in_display {
            continue;
        }
        if w != 0x0000 && w != opcodes::GPU_NO_OPERAT {
            assert!(
                a == 0x1000 || a == 0x1001 || a == 0x1002,
                "unexpected used word {w:#06X} at {a:#06X}"
            );
        }
    }
    assert_eq!(out.image.words[0x1000], opcodes::JMP_TO_SR);
    assert_eq!(out.image.words[0x1001], 0x1002);
    assert_eq!(out.image.words[0x1002], opcodes::HALT_LOOP);
}

#[test]
fn usage_count_of_minimal_program() {
    let text = src(&["routine: entry", "ctrl cpu halt", "end"]);
    let out = assemble(&text).unwrap();
    // 81 glyph words, the two stub words, and the halt word.
    assert_eq!(out.addr_used, 81 + 2 + 1);
}

#[test]
fn resource_block_reserves_capacity() {
    let text = src(&[
        "filesys: data",
        "size = num 4",
        "end",
        "routine: entry",
        "ctrl cpu halt",
        "end",
    ]);
    let out = assemble(&text).unwrap();
    assert_eq!(out.file_systems.len(), 1);
    assert_eq!(out.file_systems[0].size, 4);
    assert_eq!(out.file_systems[0].startpoint, 0x1002);
    // The paired placeholder block keeps the address bookkeeping aligned:
    // the entry block lands past the four reserved words and the two
    // separator words.
    assert_eq!(out.routines[1].address, 0x1007);
    assert_eq!(out.image.words[0x1001], 0x1007);
    assert_eq!(out.image.words[0x1007], opcodes::HALT_LOOP);
}

#[test]
fn boundary_immediate_efff_accepted() {
    let text = src(&["routine: entry", "radd A num 61439", "end"]);
    let out = assemble(&text).unwrap();
    assert_eq!(
        out.routines[0].instructions,
        vec![opcodes::INC_REG_V, 0x41, 0xEFFF]
    );
}

#[test]
fn boundary_immediate_f000_rejected() {
    let text = src(&["routine: entry", "radd A num 61440", "end"]);
    let err = assemble(&text).unwrap_err();
    assert_eq!(err.line, 2);
}

#[test]
fn unknown_directive_is_fatal_with_line() {
    let text = src(&["routine: main", "frobnicate", "end"]);
    let err = assemble(&text).unwrap_err();
    assert_eq!(err.line, 2);
    assert_eq!(err.token, "frobnicate");
    assert_eq!(err.position, 1);
}

#[test]
fn empty_source_is_fatal() {
    assert!(assemble("").is_err());
}

#[test]
fn carriage_returns_before_newlines_are_ignored() {
    let text = "routine: entry\r\nctrl cpu halt\r\nend\r\n";
    let out = assemble(text).unwrap();
    assert_eq!(out.routines[0].instructions, vec![opcodes::HALT_LOOP]);
}

#[test]
fn entry_block_may_be_reentered() {
    let text = src(&[
        "routine: entry",
        "inpt",
        "end",
        "routine: tail",
        "rtor",
        "end",
    ]);
    let out = assemble(&text).unwrap();
    // The distinguished name `entry` never advances the block cursor, so
    // the next block's body lines land in the entry slot; the later block
    // entry stays an empty placeholder.
    assert_eq!(
        out.routines[0].instructions,
        vec![opcodes::AWAIT_INP, opcodes::RET_TO_OR]
    );
    assert!(out.routines[1].instructions.is_empty());
}

#[test]
fn constant_above_efff_is_fatal() {
    let text = src(&["routine: entry", "var big = num 61440", "end"]);
    assert!(assemble(&text).is_err());
    let text = src(&["routine: entry", "var big = num 61439", "end"]);
    assert!(assemble(&text).is_ok());
}

#[test]
fn constant_without_equals_is_fatal() {
    let text = src(&["routine: entry", "var big : num 4", "end"]);
    let err = assemble(&text).unwrap_err();
    assert_eq!(err.line, 2);
}

#[test]
fn size_without_equals_is_fatal() {
    let text = src(&["filesys: d", "size x num 4", "end"]);
    assert!(assemble(&text).is_err());
}

#[test]
fn unknown_top_level_token_is_fatal() {
    let text = src(&["bogus"]);
    assert!(assemble(&text).is_err());
}

#[test]
fn unterminated_block_is_fatal() {
    let text = src(&["routine: main", "inpt"]);
    assert!(assemble(&text).is_err());
}

#[test]
fn program_without_blocks_is_fatal() {
    let text = src(&["# just a comment"]);
    assert!(assemble(&text).is_err());
}

#[test]
fn comments_and_blanks_are_skipped() {
    let text = src(&[
        "# top comment",
        "",
        "routine: entry",
        "// body comment",
        "",
        "ctrl cpu halt",
        "end",
    ]);
    let out = assemble(&text).unwrap();
    assert_eq!(out.routines[0].instructions, vec![opcodes::HALT_LOOP]);
}

#[test]
fn load_of_known_constant_emits_tagged_address() {
    let text = src(&[
        "routine: entry",
        "var speed = num 9",
        "load B var speed",
        "end",
    ]);
    let out = assemble(&text).unwrap();
    assert_eq!(
        out.routines[0].instructions,
        vec![opcodes::LOAD_BREG, 0xF000]
    );
}

#[test]
fn load_of_unknown_constant_emits_zero() {
    let text = src(&["routine: entry", "load A var nothing", "end"]);
    let out = assemble(&text).unwrap();
    assert_eq!(out.routines[0].instructions, vec![opcodes::LOAD_AREG, 0]);
}

#[test]
fn first_declared_constant_wins_on_name_collision() {
    let text = src(&[
        "routine: entry",
        "var twin = num 1",
        "var twin = num 2",
        "load A var twin",
        "end",
    ]);
    let out = assemble(&text).unwrap();
    // Both declarations are appended, but lookup finds the first.
    assert_eq!(out.variables.len(), 2);
    assert_eq!(out.routines[0].instructions, vec![opcodes::LOAD_AREG, 0xF000]);
}
