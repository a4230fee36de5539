use mirrorb::codec::{
    block_is_wf, decompress, expand, parse_levels, parse_line, parse_number, replace_byte, rule, split_bytes,
    square_of, LevelFileError, LineError, RULES,
};
use mirrorb::game_state::Block;

fn bytes(s: &str) -> Vec<u8> {
    s.as_bytes().to_vec()
}

#[test]
fn replace_byte_replaces_every_occurrence() {
    assert_eq!(replace_byte(&bytes("a.b.."), b'.', &bytes("xy")), bytes("axybxyxy"));
    assert_eq!(replace_byte(&bytes("abc"), b'.', &bytes("xy")), bytes("abc"));
    assert_eq!(replace_byte(&bytes(""), b'.', &bytes("xy")), bytes(""));
    assert_eq!(replace_byte(&bytes("..."), b'.', &bytes("")), bytes(""));
}

#[test]
fn rule_table_has_the_documented_rewrites() {
    assert_eq!(RULES, 37);
    assert_eq!(rule(0), (b'"', b'l', b'A'));
    assert_eq!(rule(1), (b'/', b'.', b'&'));
    assert_eq!(rule(4), (b'?', b'~', b'~'));
    assert_eq!(rule(23), (b'1', b'.', b'e'));
    assert_eq!(rule(29), (b'&', b'e', b'A'));
    assert_eq!(rule(36), (b'~', b'a', b'A'));
}

#[test]
fn rule_table_rewrites_no_byte_twice() {
    for i in 0..RULES {
        for j in 0..i {
            assert_ne!(rule(i).0, rule(j).0);
        }
    }
}

#[test]
fn decompress_undoes_one_rewrite() {
    assert_eq!(decompress(&bytes("1")), bytes(".e"));
    assert_eq!(decompress(&bytes("\"")), bytes("lA"));
    assert_eq!(decompress(&bytes("@")), bytes(".A"));
}

#[test]
fn decompress_applies_the_rewrites_in_order() {
    // the slash makes an ampersand, which a later rewrite takes up
    assert_eq!(decompress(&bytes("/")), bytes(".eA"));
    // the question mark makes two tildes, which the last rewrite takes up
    assert_eq!(decompress(&bytes("?")), bytes("aAaA"));
    // the semicolon makes a hash, which a later rewrite takes up
    assert_eq!(decompress(&bytes(";")), bytes(".cA"));
    // the equals sign makes a dollar, which a later rewrite takes up
    assert_eq!(decompress(&bytes("=")), bytes(".dA"));
    // a zero makes an exclamation mark, a four makes a tilde
    assert_eq!(decompress(&bytes("0")), bytes(".bA"));
    assert_eq!(decompress(&bytes("4")), bytes(".aA"));
}

#[test]
fn decompress_leaves_letters_dots_and_the_digit_three_alone() {
    assert_eq!(decompress(&bytes("aZ.3")), bytes("aZ.3"));
    assert_eq!(decompress(&bytes("")), bytes(""));
}

#[test]
fn expand_spells_out_run_lengths() {
    assert_eq!(expand(&bytes("b.A")), bytes("..ox"));
    assert_eq!(expand(&bytes("a")), bytes("."));
    assert_eq!(expand(&bytes("A")), bytes("x"));
    assert_eq!(expand(&bytes(".")), bytes("o"));
    assert_eq!(expand(&bytes("")), bytes(""));
}

#[test]
fn expand_spells_the_last_letters_as_twenty_six() {
    assert_eq!(expand(&bytes("z")), vec![b'.'; 26]);
    assert_eq!(expand(&bytes("Z")), vec![b'x'; 26]);
    assert_eq!(expand(&bytes("M.K")).len(), 25);
}

#[test]
fn expand_keeps_the_runs_of_a_capital_x() {
    // the small x is spelled out before the capital one, whose run stays
    assert_eq!(expand(&bytes("X")), vec![b'x'; 24]);
    assert_eq!(expand(&bytes("x")), vec![b'.'; 24]);
}

#[test]
fn decode_of_both_stages() {
    assert_eq!(expand(&decompress(&bytes("1"))), bytes("o....."));
    assert_eq!(expand(&decompress(&bytes("/"))), bytes("o.....x"));
    assert_eq!(expand(&decompress(&bytes("?"))), bytes(".x.x"));
}

#[test]
fn split_bytes_cuts_at_every_separator() {
    assert_eq!(split_bytes(&bytes("a,b,,c"), b','), vec![bytes("a"), bytes("b"), bytes(""), bytes("c")]);
    assert_eq!(split_bytes(&bytes(""), b','), vec![bytes("")]);
    assert_eq!(split_bytes(&bytes(","), b','), vec![bytes(""), bytes("")]);
    assert_eq!(split_bytes(&bytes("abc"), b','), vec![bytes("abc")]);
}

#[test]
fn parse_number_reads_decimal_digits() {
    assert_eq!(parse_number(&bytes("0")), Some(0));
    assert_eq!(parse_number(&bytes("24")), Some(24));
    assert_eq!(parse_number(&bytes("007")), Some(7));
    assert_eq!(parse_number(&bytes("+15")), Some(15));
    assert_eq!(parse_number(&bytes("18446744073709551615")), Some(usize::MAX));
}

#[test]
fn parse_number_refuses_what_is_no_number() {
    assert_eq!(parse_number(&bytes("")), None);
    assert_eq!(parse_number(&bytes("+")), None);
    assert_eq!(parse_number(&bytes("-1")), None);
    assert_eq!(parse_number(&bytes("1 ")), None);
    assert_eq!(parse_number(&bytes("x")), None);
    assert_eq!(parse_number(&bytes("1+1")), None);
    assert_eq!(parse_number(&bytes("18446744073709551616")), None);
    assert_eq!(parse_number(&bytes("99999999999999999999999")), None);
}

#[test]
fn square_of_compares_with_the_square() {
    assert!(square_of(25, 5));
    assert!(!square_of(24, 5));
    assert!(square_of(0, 0));
    assert!(!square_of(0, usize::MAX));
    assert!(!square_of(1, 0x1_0000_0000));
}

#[test]
fn parse_line_reads_a_block() {
    let block = parse_line(&bytes("8,5,1,M.K")).unwrap();
    assert_eq!(block.npcs, 8);
    assert_eq!(block.sz, 5);
    assert_eq!(block.norbs, 1);
    let mut map = vec![b'x'; 25];
    map[13] = b'o';
    assert_eq!(block.map, map);
}

#[test]
fn parse_line_passes_over_fields_behind_the_fourth() {
    let block = parse_line(&bytes("16,5,0,Y,rest,more")).unwrap();
    assert_eq!(block.npcs, 16);
    assert_eq!(block.map, vec![b'x'; 25]);
}

#[test]
fn parse_line_refuses_too_few_fields() {
    assert_eq!(parse_line(&bytes("8,5,1")).unwrap_err(), LineError::FieldCount);
    assert_eq!(parse_line(&bytes("8")).unwrap_err(), LineError::FieldCount);
    // the count of fields is looked at before the numbers
    assert_eq!(parse_line(&bytes("x,y")).unwrap_err(), LineError::FieldCount);
}

#[test]
fn parse_line_refuses_a_field_that_is_no_number() {
    assert_eq!(parse_line(&bytes("a,5,1,M.K")).unwrap_err(), LineError::Number);
    assert_eq!(parse_line(&bytes("8,,1,M.K")).unwrap_err(), LineError::Number);
    assert_eq!(parse_line(&bytes("8,5,-1,M.K")).unwrap_err(), LineError::Number);
}

#[test]
fn parse_line_refuses_a_map_of_the_wrong_length() {
    assert_eq!(parse_line(&bytes("8,5,1,M.J")).unwrap_err(), LineError::Length);
    assert_eq!(parse_line(&bytes("8,5,1,")).unwrap_err(), LineError::Length);
    assert_eq!(parse_line(&bytes("8,99999999999,1,M.K")).unwrap_err(), LineError::Length);
}

#[test]
fn parse_line_refuses_a_layout_that_cannot_be_played() {
    // an orb in a corner
    assert_eq!(parse_line(&bytes("8,5,1,.X")).unwrap_err(), LineError::Layout);
    // an orb on the left edge
    assert_eq!(parse_line(&bytes("8,5,1,E.S")).unwrap_err(), LineError::Layout);
    // a piece count that is none of 8, 16, 24
    assert_eq!(parse_line(&bytes("9,5,1,M.K")).unwrap_err(), LineError::Layout);
    // a board too small and one too large
    assert_eq!(parse_line(&bytes("8,2,0,D")).unwrap_err(), LineError::Layout);
    assert_eq!(parse_line(&bytes("8,16,0,ZZZZZZZZZV")).unwrap_err(), LineError::Layout);
}

#[test]
fn block_is_wf_accepts_the_sizes_in_range() {
    let small = Block { sz: 3, norbs: 1, npcs: 24, map: bytes("xxxxoxxxx") };
    assert!(block_is_wf(&small));
    let large = Block { sz: 15, norbs: 0, npcs: 16, map: vec![b'.'; 225] };
    assert!(block_is_wf(&large));
    let edge = Block { sz: 3, norbs: 1, npcs: 8, map: bytes("xxxoxxxxx") };
    assert!(!block_is_wf(&edge));
}

#[test]
fn parse_levels_reads_the_lines_in_order() {
    let blocks = parse_levels(&bytes("8,5,1,M.K\n16,5,0,Y\r\n\n24,7,2,ZJ.A.J")).unwrap();
    assert_eq!(blocks.len(), 3);
    assert_eq!((blocks[0].npcs, blocks[0].sz, blocks[0].norbs), (8, 5, 1));
    assert_eq!((blocks[1].npcs, blocks[1].sz, blocks[1].norbs), (16, 5, 0));
    assert_eq!((blocks[2].npcs, blocks[2].sz, blocks[2].norbs), (24, 7, 2));
    assert_eq!(blocks[1].map, vec![b'x'; 25]);
    assert_eq!(blocks[2].map[36], b'o');
    assert_eq!(blocks[2].map[38], b'o');
}

#[test]
fn parse_levels_passes_over_short_lines() {
    assert_eq!(parse_levels(&bytes("")).unwrap().len(), 0);
    assert_eq!(parse_levels(&bytes("\n\n")).unwrap().len(), 0);
    assert_eq!(parse_levels(&bytes("x\n\r\n")).unwrap().len(), 0);
    assert_eq!(parse_levels(&bytes("\n8,5,1,M.K\n")).unwrap().len(), 1);
}

#[test]
fn parse_levels_names_the_first_line_that_is_refused() {
    assert_eq!(
        parse_levels(&bytes("8,5,1,M.K\n\n8,5,1\n8,x,1,M.K\n")).unwrap_err(),
        LevelFileError { line: 2, kind: LineError::FieldCount }
    );
    assert_eq!(
        parse_levels(&bytes("8,x,1,M.K")).unwrap_err(),
        LevelFileError { line: 0, kind: LineError::Number }
    );
    assert_eq!(
        parse_levels(&bytes("8,5,1,M.K\n8,5,1,M.L")).unwrap_err(),
        LevelFileError { line: 1, kind: LineError::Length }
    );
    assert_eq!(
        parse_levels(&bytes("\n\n\n8,5,1,.X")).unwrap_err(),
        LevelFileError { line: 3, kind: LineError::Layout }
    );
}

#[test]
fn parse_levels_keeps_a_carriage_return_that_ends_the_text() {
    // without a line feed behind it the carriage return belongs to the map
    assert_eq!(
        parse_levels(&bytes("8,5,1,M.K\r")).unwrap_err(),
        LevelFileError { line: 0, kind: LineError::Length }
    );
}
