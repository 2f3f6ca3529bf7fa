use stencil::Entry;
use stencil::Pattern;
use stencil::ReplacementSet;
use stencil::bytes::bytes_eq;
use stencil::bytes::find_from;
use stencil::render;
use stencil::substitute;

fn v(s: &str) -> Vec<u8> {
    s.as_bytes().to_vec()
}

fn set_of(pairs: &[(&str, &str)]) -> ReplacementSet {
    let mut entries = Vec::new();
    for (k, val) in pairs {
        entries.push(Entry { key: v(k), value: v(val) });
    }
    ReplacementSet { whitelist_only: false, entries }
}

fn braces() -> Pattern {
    Pattern::new(v("{{"), v("}}"))
}

#[test]
fn hello_name_age() {
    let set = set_of(&[("name", "Ada"), ("age", "36")]);
    let out = substitute(&v("Hello {{name}}, you are {{age}}."), &braces(), &set);
    assert_eq!(out, Ok(v("Hello Ada, you are 36.")));
}

#[test]
fn adjacent_tokens() {
    let set = set_of(&[("a", "X"), ("b", "Y")]);
    let out = substitute(&v("{{a}}{{b}}"), &braces(), &set);
    assert_eq!(out, Ok(v("XY")));
}

#[test]
fn no_tokens_unchanged() {
    let set = set_of(&[("a", "X")]);
    let out = substitute(&v("no tokens here"), &braces(), &set);
    assert_eq!(out, Ok(v("no tokens here")));
}

#[test]
fn empty_template() {
    let set = set_of(&[]);
    let out = substitute(&v(""), &braces(), &set);
    assert_eq!(out, Ok(v("")));
}

#[test]
fn missing_key_fails_with_key() {
    let set = set_of(&[("present", "x")]);
    let out = substitute(&v("{{missing}}"), &braces(), &set);
    assert_eq!(out, Err(v("missing")));
}

#[test]
fn missing_key_error_carries_context() {
    let set = set_of(&[]);
    let r = render(&v("{{missing}}"), &braces(), &set, &v("dev"), &v("site/config.tmpl"));
    match r {
        Ok(_) => panic!("expected an unresolved key"),
        Err(e) => {
            assert_eq!(e.key, v("missing"));
            assert_eq!(e.set_name, v("dev"));
            assert_eq!(e.template, v("site/config.tmpl"));
        }
    }
}

#[test]
fn leftmost_failure_wins() {
    let set = set_of(&[("x", "1"), ("y", "2")]);
    let out = substitute(&v("{{x}}{{m1}}{{m2}}{{y}}"), &braces(), &set);
    assert_eq!(out, Err(v("m1")));
}

#[test]
fn empty_key_is_legal() {
    let set = set_of(&[("", "E")]);
    let out = substitute(&v("a{{}}b"), &braces(), &set);
    assert_eq!(out, Ok(v("aEb")));
}

#[test]
fn non_greedy_resolves_two_tokens() {
    let set = set_of(&[("a", "1"), ("b", "2")]);
    let out = substitute(&v("{{a}} text {{b}}"), &braces(), &set);
    assert_eq!(out, Ok(v("1 text 2")));
}

#[test]
fn token_at_both_edges() {
    let set = set_of(&[("k", "value")]);
    assert_eq!(substitute(&v("{{k}}"), &braces(), &set), Ok(v("value")));
    assert_eq!(substitute(&v("{{k}}end"), &braces(), &set), Ok(v("valueend")));
    assert_eq!(substitute(&v("start{{k}}"), &braces(), &set), Ok(v("startvalue")));
}

#[test]
fn unclosed_token_is_no_token() {
    let set = set_of(&[("k", "value")]);
    assert_eq!(substitute(&v("oops {{k"), &braces(), &set), Ok(v("oops {{k")));
}

#[test]
fn replacement_value_is_not_rescanned() {
    let set = set_of(&[("k", "{{k}}")]);
    assert_eq!(substitute(&v("{{k}}"), &braces(), &set), Ok(v("{{k}}")));
}

#[test]
fn empty_after_delimiter() {
    let pat = Pattern::new(v("$"), v(""));
    let set = set_of(&[("", "X")]);
    assert_eq!(substitute(&v("a$b"), &pat, &set), Ok(v("aXb")));
}

#[test]
fn empty_before_delimiter() {
    let pat = Pattern::new(v(""), v(";"));
    let set = set_of(&[("x", "Z"), ("y", "W")]);
    assert_eq!(substitute(&v("x;y"), &pat, &set), Ok(v("Zy")));
}

#[test]
fn resolution_is_deterministic() {
    let set = set_of(&[("name", "Ada"), ("age", "36")]);
    let template = v("Hello {{name}}, you are {{age}}.");
    let first = substitute(&template, &braces(), &set);
    let second = substitute(&template, &braces(), &set);
    assert_eq!(first, second);
}

#[test]
fn output_length_accounting() {
    let set = set_of(&[("name", "Ada"), ("age", "36")]);
    let template = v("Hello {{name}}, you are {{age}}.");
    let out = substitute(&template, &braces(), &set).unwrap();
    let token_lens = "{{name}}".len() + "{{age}}".len();
    let replacement_lens = "Ada".len() + "36".len();
    assert_eq!(out.len(), template.len() - token_lens + replacement_lens);
}

#[test]
fn find_from_picks_leftmost_occurrence() {
    let t = v("abcabc");
    assert_eq!(find_from(&t, &v("bc"), 0), Some(1));
    assert_eq!(find_from(&t, &v("bc"), 2), Some(4));
    assert_eq!(find_from(&t, &v("bc"), 5), None);
    assert_eq!(find_from(&t, &v("zz"), 0), None);
}

#[test]
fn find_from_overlapping_pattern() {
    let t = v("aaa");
    assert_eq!(find_from(&t, &v("aa"), 0), Some(0));
    assert_eq!(find_from(&t, &v("aa"), 1), Some(1));
    assert_eq!(find_from(&t, &v("aa"), 2), None);
}

#[test]
fn find_from_empty_pattern_matches_everywhere() {
    let t = v("ab");
    assert_eq!(find_from(&t, &v(""), 0), Some(0));
    assert_eq!(find_from(&t, &v(""), 2), Some(2));
    assert_eq!(find_from(&t, &v(""), 3), None);
}

#[test]
fn find_from_pattern_longer_than_text() {
    assert_eq!(find_from(&v("ab"), &v("abc"), 0), None);
}

#[test]
fn bytes_eq_compares_contents() {
    assert!(bytes_eq(&v("same"), &v("same")));
    assert!(bytes_eq(&v(""), &v("")));
    assert!(!bytes_eq(&v("same"), &v("sama")));
    assert!(!bytes_eq(&v("short"), &v("shorter")));
}

#[test]
fn longer_delimiters() {
    let pat = Pattern::new(v("<%="), v("%>"));
    let set = set_of(&[("title", "Home")]);
    assert_eq!(
        substitute(&v("<h1><%=title%></h1>"), &pat, &set),
        Ok(v("<h1>Home</h1>"))
    );
}
