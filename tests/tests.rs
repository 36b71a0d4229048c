use prettier::utils::fill;
use prettier::utils::fill_word_list;
use prettier::utils::fill_words;
use prettier::utils::line_concat;
use prettier::utils::space_concat;
use prettier::utils::space_or_line_concat;
use prettier::utils::spread;
use prettier::utils::stack;
use prettier::Doc;
use prettier::LowDoc;
use std::rc::Rc;

struct Tree(&'static str, Vec<Tree>);

fn show(t: &Tree) -> Doc {
    prettier::group(Rc::new(prettier::concat(
        prettier::text(t.0),
        prettier::nest(t.0.len(), show_bracket(&t.1[..])),
    )))
}

fn show_bracket(t: &[Tree]) -> Doc {
    if t.is_empty() {
        prettier::nil()
    } else {
        prettier::concat(
            prettier::text("["),
            prettier::concat(prettier::nest(1, show_trees(t)), prettier::text("]")),
        )
    }
}

fn show_trees(t: &[Tree]) -> Doc {
    assert!(!t.is_empty());
    if t.len() == 1 {
        show(&t[0])
    } else {
        prettier::concat(
            show(&t[0]),
            prettier::concat(
                prettier::text(","),
                prettier::concat(prettier::line(), show_trees(&t[1..])),
            ),
        )
    }
}

fn sample_tree() -> Tree {
    Tree(
        "aaa",
        vec![
            Tree("bbbbb", vec![Tree("ccc", vec![]), Tree("dd", vec![])]),
            Tree("eee", vec![]),
            Tree(
                "ffff",
                vec![Tree("gg", vec![]), Tree("hhh", vec![]), Tree("ii", vec![])],
            ),
        ],
    )
}

fn words(ws: &[&str]) -> Vec<Doc> {
    ws.iter().map(|w| prettier::text(w)).collect()
}

fn broken_pair(a: &str, b: &str) -> Doc {
    prettier::concat(
        prettier::text(a),
        prettier::concat(prettier::line(), prettier::text(b)),
    )
}

#[test]
fn test1() {
    let expected = "\
aaa[bbbbb[ccc, dd],
    eee,
    ffff[gg, hhh, ii]]";
    assert_eq!(prettier::pretty(30, show(&sample_tree())), expected);
}

#[test]
fn test2() {
    let expected = "\
aaa[bbbbb[ccc,
          dd],
    eee,
    ffff[gg,
         hhh,
         ii]]";
    assert_eq!(prettier::pretty(10, show(&sample_tree())), expected);
}

#[test]
fn wide_tree_is_one_line() {
    assert_eq!(
        prettier::pretty(80, show(&sample_tree())),
        "aaa[bbbbb[ccc, dd], eee, ffff[gg, hhh, ii]]"
    );
}

#[test]
fn rendering_twice_gives_the_same_text() {
    let first = prettier::pretty(10, show(&sample_tree()));
    let second = prettier::pretty(10, show(&sample_tree()));
    assert_eq!(first, second);
}

#[test]
fn flatten_twice_renders_as_flatten_once() {
    let d = show(&sample_tree());
    let once = prettier::flatten(&d);
    let twice = prettier::flatten(&prettier::flatten(&d));
    assert_eq!(prettier::pretty(10, twice), prettier::pretty(10, once));
}

#[test]
fn flatten_turns_breaks_into_spaces() {
    let d = prettier::nest(4, broken_pair("ab", "cd"));
    assert_eq!(prettier::pretty(1, prettier::flatten(&d)), "ab cd");
}

#[test]
fn wide_group_takes_flat_branch() {
    let x = broken_pair("hello", "world");
    assert_eq!(prettier::pretty(11, prettier::group(Rc::new(x))), "hello world");
}

#[test]
fn group_breaks_one_column_short() {
    let x = broken_pair("hello", "world");
    assert_eq!(prettier::pretty(10, prettier::group(Rc::new(x))), "hello\nworld");
}

#[test]
fn narrow_width_still_renders_expanded() {
    let x = broken_pair("aaa", "bbb");
    assert_eq!(prettier::pretty(1, prettier::group(Rc::new(x))), "aaa\nbbb");
}

#[test]
fn width_zero_with_empty_document() {
    assert_eq!(prettier::pretty(0, prettier::nil()), "");
}

#[test]
fn nest_indents_following_lines() {
    let d = prettier::nest(3, broken_pair("a", "b"));
    assert_eq!(prettier::pretty(80, d), "a\n   b");
}

#[test]
fn nests_add_up() {
    let d = prettier::nest(2, prettier::nest(3, broken_pair("a", "b")));
    assert_eq!(prettier::pretty(80, d), "a\n     b");
}

#[test]
fn fitting_line_fits_at_larger_width() {
    let x = broken_pair("abc", "def");
    assert_eq!(prettier::pretty(7, prettier::group(Rc::new(x))), "abc def");
    let y = broken_pair("abc", "def");
    assert_eq!(prettier::pretty(100, prettier::group(Rc::new(y))), "abc def");
}

#[test]
fn layout_text_of_breaks_and_segments() {
    let l = LowDoc::Text(
        String::from("ab"),
        Rc::new(LowDoc::Line(
            3,
            Rc::new(LowDoc::Text(String::from("c"), Rc::new(LowDoc::Nil))),
        )),
    );
    assert_eq!(l.to_string(), "ab\n   c");
}

#[test]
fn copy_keeps_the_document() {
    let d = show(&sample_tree());
    assert_eq!(prettier::pretty(10, d.copy()), prettier::pretty(10, d));
}

#[test]
fn space_concat_joins_with_a_space() {
    let d = space_concat(prettier::text("a"), prettier::text("b"));
    assert_eq!(prettier::pretty(1, d), "a b");
}

#[test]
fn line_concat_joins_with_a_break() {
    let d = line_concat(prettier::text("a"), prettier::text("b"));
    assert_eq!(prettier::pretty(80, d), "a\nb");
}

#[test]
fn spread_starts_with_a_space() {
    assert_eq!(prettier::pretty(1, spread(words(&["a", "b", "c"]))), " a b c");
    assert_eq!(prettier::pretty(1, spread(Vec::new())), "");
}

#[test]
fn stack_starts_with_a_break() {
    assert_eq!(prettier::pretty(80, stack(words(&["a", "b"]))), "\na\nb");
}

#[test]
fn soft_break_is_a_space_where_it_fits() {
    let d = space_or_line_concat(prettier::text("ab"), prettier::text("cd"));
    assert_eq!(prettier::pretty(5, d), "ab cd");
    let e = space_or_line_concat(prettier::text("ab"), prettier::text("cd"));
    assert_eq!(prettier::pretty(4, e), "ab\ncd");
}

#[test]
fn fill_words_wraps_greedily() {
    assert_eq!(prettier::pretty(5, fill_words("aa bb cc")), " aa\nbb cc");
}

#[test]
fn fill_words_splits_at_runs_of_whitespace() {
    assert_eq!(prettier::pretty(100, fill_words("  aa \t  bb\n")), " aa bb");
    assert_eq!(prettier::pretty(100, fill_words("   ")), "");
}

#[test]
fn fill_word_list_joins_given_words() {
    let ws = vec![String::from("x"), String::from("yy")];
    assert_eq!(prettier::pretty(100, fill_word_list(ws)), " x yy");
}

#[test]
fn fill_of_none_and_one() {
    assert_eq!(prettier::pretty(10, fill(Vec::new())), "");
    assert_eq!(prettier::pretty(10, fill(words(&["a"]))), "a");
}

#[test]
fn fill_of_two_chooses_one_line_or_a_break() {
    assert_eq!(prettier::pretty(100, fill(words(&["a", "b"]))), "a b");
    assert_eq!(prettier::pretty(10, fill(words(&["a", "b"]))), "a b");
    assert_eq!(prettier::pretty(2, fill(words(&["a", "b"]))), "a\nb");
}

#[test]
fn fill_of_three_wraps_greedily() {
    assert_eq!(prettier::pretty(100, fill(words(&["a", "b", "c"]))), "a b c");
    assert_eq!(prettier::pretty(3, fill(words(&["a", "b", "c"]))), "a b\nc");
    assert_eq!(prettier::pretty(2, fill(words(&["a", "b", "c"]))), "a\nb\nc");
}
