use todo::format::{extract_block, match_task_line, HeadingDepth};
use todo::text::{
    chars_of, decimal_string, find, find_char, find_line_end, find_line_with,
    is_whitespace_char, join_strings, matches_at,
};

const DOCUMENT: &str = "# Title\n\n## Description\n\nLABEL=a,b\n\n## Todo list\n\n\
* [ ] top\n\n### First\n\n* [x] one\n* [ ] two\n\n### Second\n\n* [x] three\n\n\
### First\n\n* [ ] shadowed\n\n## Motives\n\n1. because\n";

#[test]
fn task_block_runs_to_the_next_heading_of_its_depth() {
    let block = extract_block(DOCUMENT, "Todo list", HeadingDepth::TaskBlock).unwrap();
    assert_eq!(
        block,
        "* [ ] top\n\n### First\n\n* [x] one\n* [ ] two\n\n### Second\n\n* [x] three\n\n\
### First\n\n* [ ] shadowed\n"
    );
}

#[test]
fn block_at_the_end_runs_to_the_end_of_the_document() {
    let block = extract_block(DOCUMENT, "Motives", HeadingDepth::TaskBlock).unwrap();
    assert_eq!(block, "1. because\n");
}

#[test]
fn section_runs_to_the_next_section() {
    let section = extract_block(DOCUMENT, "Second", HeadingDepth::Section).unwrap();
    assert_eq!(section, "* [x] three\n");
}

#[test]
fn first_section_of_a_name_wins() {
    let section = extract_block(DOCUMENT, "First", HeadingDepth::Section).unwrap();
    assert_eq!(section, "* [x] one\n* [ ] two\n");
}

#[test]
fn section_ends_at_a_shallower_heading() {
    let doc = "intro\n### Last\n\n* [ ] kept\n\n## Other\n\n* [ ] not kept\n";
    let section = extract_block(doc, "Last", HeadingDepth::Section).unwrap();
    assert_eq!(section, "* [ ] kept\n");
}

#[test]
fn task_block_does_not_end_at_a_section_heading() {
    let doc = "\n## Todo list\n\n* [ ] a\n\n### Part\n\n* [ ] b";
    let block = extract_block(doc, "Todo list", HeadingDepth::TaskBlock).unwrap();
    assert_eq!(block, "* [ ] a\n\n### Part\n\n* [ ] b");
}

#[test]
fn missing_heading_gives_no_block() {
    assert!(extract_block(DOCUMENT, "Third", HeadingDepth::Section).is_none());
    assert!(extract_block(DOCUMENT, "Todo", HeadingDepth::TaskBlock).is_none());
    assert!(extract_block("", "Todo list", HeadingDepth::TaskBlock).is_none());
}

#[test]
fn heading_names_are_matched_letter_for_letter() {
    assert!(extract_block(DOCUMENT, "first", HeadingDepth::Section).is_none());
    assert!(extract_block(DOCUMENT, "Firs", HeadingDepth::Section).is_none());
    assert!(extract_block(DOCUMENT, "F.rst", HeadingDepth::Section).is_none());
    assert!(extract_block(DOCUMENT, "Second", HeadingDepth::TaskBlock).is_none());
    assert!(extract_block(DOCUMENT, "Todo list", HeadingDepth::Section).is_none());
}

#[test]
fn heading_needs_a_line_of_its_own_and_an_empty_line() {
    assert!(
        extract_block("x\n## Todo list\n* [ ] a", "Todo list", HeadingDepth::TaskBlock).is_none()
    );
    assert!(
        extract_block("x ## Todo list\n\n* [ ] a", "Todo list", HeadingDepth::TaskBlock).is_none()
    );
    assert!(
        extract_block("x\n## Todo list \n\n* [ ] a", "Todo list", HeadingDepth::TaskBlock).is_none()
    );
    assert!(extract_block("x\n## Todo list", "Todo list", HeadingDepth::TaskBlock).is_none());
    assert!(extract_block("x\n## Todo list\n", "Todo list", HeadingDepth::TaskBlock).is_none());
    assert_eq!(
        extract_block("x\n## Todo list\n\n", "Todo list", HeadingDepth::TaskBlock).unwrap(),
        ""
    );
}

#[test]
fn heading_on_the_first_line_is_found() {
    assert_eq!(
        extract_block("## Todo list\n\n* [ ] a", "Todo list", HeadingDepth::TaskBlock).unwrap(),
        "* [ ] a"
    );
    assert_eq!(
        extract_block("### Part\n\n* [ ] a\n", "Part", HeadingDepth::Section).unwrap(),
        "* [ ] a\n"
    );
}

#[test]
fn block_is_empty_where_the_next_heading_follows_at_once() {
    let doc = "\n### Empty\n\n### Full\n\n* [x] a\n";
    assert_eq!(extract_block(doc, "Empty", HeadingDepth::Section).unwrap(), "");
    assert_eq!(extract_block(doc, "Full", HeadingDepth::Section).unwrap(), "* [x] a\n");
    let doc = "\n## Todo list\n\n## Notes\n\ntext";
    assert_eq!(extract_block(doc, "Todo list", HeadingDepth::TaskBlock).unwrap(), "");
    assert_eq!(extract_block(doc, "Notes", HeadingDepth::TaskBlock).unwrap(), "text");
}

#[test]
fn line_feed_before_the_next_heading_is_not_part_of_the_block() {
    let doc = "## A\n\none\ntwo\n## B\n\nthree\n\n\n## C\n\n";
    assert_eq!(extract_block(doc, "A", HeadingDepth::TaskBlock).unwrap(), "one\ntwo");
    assert_eq!(extract_block(doc, "B", HeadingDepth::TaskBlock).unwrap(), "three\n\n");
    assert_eq!(extract_block(doc, "C", HeadingDepth::TaskBlock).unwrap(), "");
}

#[test]
fn heading_marks_inside_a_line_end_no_block() {
    let doc = "## A\n\none ## two\n ## three\n#### four\n## five";
    assert_eq!(
        extract_block(doc, "A", HeadingDepth::TaskBlock).unwrap(),
        "one ## two\n ## three\n#### four"
    );
}

#[test]
fn heading_name_may_hold_any_character() {
    let doc = "\n### Caf\u{e9} (2)\n\n* [x] cr\u{e8}me \u{1F370}\n\n### b\n\nrest";
    let section = extract_block(doc, "Caf\u{e9} (2)", HeadingDepth::Section).unwrap();
    assert_eq!(section, "* [x] cr\u{e8}me \u{1F370}\n");
}

#[test]
fn done_and_open_lines_are_matched() {
    let done = match_task_line("* [x] write tests").unwrap();
    assert!(done.done);
    assert_eq!(done.summary, "write tests");
    let open = match_task_line("* [ ] write more tests").unwrap();
    assert!(!open.done);
    assert_eq!(open.summary, "write more tests");
}

#[test]
fn only_the_first_line_is_matched() {
    let task = match_task_line("* [x] first\nsecond").unwrap();
    assert!(task.done);
    assert_eq!(task.summary, "first");
}

#[test]
fn other_marks_are_no_task() {
    assert!(match_task_line("* [X] upper case").is_none());
    assert!(match_task_line("* [-] dash").is_none());
    assert!(match_task_line("* [\t] tab").is_none());
    assert!(match_task_line("* [|] bar").is_none());
    assert!(match_task_line("* [] nothing").is_none());
    assert!(match_task_line("* [xx] two").is_none());
    assert!(match_task_line("* [\u{e9}] accent").is_none());
}

#[test]
fn a_task_needs_bullet_space_and_text() {
    assert!(match_task_line("").is_none());
    assert!(match_task_line("* [x]").is_none());
    assert!(match_task_line("* [x] ").is_none());
    assert!(match_task_line("* [x]text").is_none());
    assert!(match_task_line("- [x] text").is_none());
    assert!(match_task_line(" * [x] text").is_none());
    assert!(match_task_line("*[x] text").is_none());
    assert!(match_task_line("* [x] \nnext").is_none());
    assert_eq!(match_task_line("* [ ]  ").unwrap().summary, " ");
}

#[test]
fn finding_a_pattern() {
    let text = chars_of("abcabc");
    let bc = chars_of("bc");
    let empty = chars_of("");
    assert_eq!(find(&text, &bc, 0), Some(1));
    assert_eq!(find(&text, &bc, 1), Some(1));
    assert_eq!(find(&text, &bc, 2), Some(4));
    assert_eq!(find(&text, &bc, 5), None);
    assert_eq!(find(&text, &bc, 100), None);
    assert_eq!(find(&text, &text, 0), Some(0));
    assert_eq!(find(&bc, &text, 0), None);
    assert_eq!(find(&text, &empty, 6), Some(6));
    assert_eq!(find(&text, &empty, 7), None);
    assert!(matches_at(&text, &bc, 4));
    assert!(!matches_at(&text, &bc, 5));
    assert!(!matches_at(&text, &bc, 0));
}

#[test]
fn finding_a_line_by_its_start() {
    let text = chars_of("ab\nab ab\n\nab");
    let ab = chars_of("ab");
    let empty = chars_of("");
    assert_eq!(find_line_with(&text, &ab, 0), Some(0));
    assert_eq!(find_line_with(&text, &ab, 1), Some(3));
    assert_eq!(find_line_with(&text, &ab, 3), Some(3));
    assert_eq!(find_line_with(&text, &ab, 4), Some(10));
    assert_eq!(find_line_with(&text, &ab, 11), None);
    assert_eq!(find_line_with(&text, &ab, 99), None);
    assert_eq!(find_line_with(&text, &empty, 4), Some(9));
    assert_eq!(find_line_with(&chars_of("ab\n"), &empty, 1), Some(3));
    assert_eq!(find_line_with(&chars_of("ab"), &empty, 1), None);
}

#[test]
fn finding_the_end_of_a_line() {
    let text = chars_of("ab\ncd\n");
    assert_eq!(find_line_end(&text, 0), 2);
    assert_eq!(find_line_end(&text, 2), 2);
    assert_eq!(find_line_end(&text, 3), 5);
    assert_eq!(find_line_end(&text, 6), 6);
    assert_eq!(find_line_end(&text, 7), 6);
    assert_eq!(find_char(&text, 'd', 0), 4);
    assert_eq!(find_char(&text, 'z', 0), 6);
}

#[test]
fn white_space_is_what_unicode_says() {
    for code in 0..=0x3100u32 {
        if let Some(c) = char::from_u32(code) {
            assert_eq!(is_whitespace_char(c), c.is_whitespace(), "U+{:04X}", code);
        }
    }
    assert!(!is_whitespace_char('\u{FEFF}'));
    assert!(!is_whitespace_char('\u{200B}'));
}

#[test]
fn numbers_in_base_ten() {
    assert_eq!(decimal_string(0), "0");
    assert_eq!(decimal_string(7), "7");
    assert_eq!(decimal_string(10), "10");
    assert_eq!(decimal_string(1234567890), "1234567890");
    assert_eq!(decimal_string(usize::MAX), usize::MAX.to_string());
}

#[test]
fn joining_strings() {
    let none: Vec<String> = vec![];
    assert_eq!(join_strings(&none, ","), "");
    assert_eq!(join_strings(&vec![String::from("a")], ","), "a");
    assert_eq!(
        join_strings(&vec![String::from("a"), String::from(""), String::from("c")], ", "),
        "a, , c"
    );
}
