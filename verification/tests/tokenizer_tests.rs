use shell_core::parser::tokenize;

fn toks(input: &str) -> Vec<String> {
    tokenize(input)
}

#[test]
fn empty_input_yields_no_tokens() {
    assert_eq!(toks(""), Vec::<String>::new());
}

#[test]
fn all_whitespace_yields_no_tokens() {
    assert_eq!(toks("   "), Vec::<String>::new());
    assert_eq!(toks(" \t \t"), Vec::<String>::new());
}

#[test]
fn splits_on_spaces() {
    assert_eq!(toks("echo hello world"), vec!["echo", "hello", "world"]);
}

#[test]
fn splits_on_tabs_and_collapses_runs() {
    assert_eq!(toks("a\tb  \t c"), vec!["a", "b", "c"]);
}

#[test]
fn single_quotes_keep_spaces() {
    assert_eq!(toks("echo 'a b' c"), vec!["echo", "a b", "c"]);
}

#[test]
fn single_quotes_are_literal_inside_double_quotes() {
    assert_eq!(toks("echo \"a 'b' c\""), vec!["echo", "a 'b' c"]);
}

#[test]
fn double_quotes_are_literal_inside_single_quotes() {
    assert_eq!(toks("echo 'a \"b\" c'"), vec!["echo", "a \"b\" c"]);
}

#[test]
fn quote_boundaries_do_not_split_tokens() {
    assert_eq!(toks("ab'c d'ef gh"), vec!["abc def", "gh"]);
}

#[test]
fn double_quote_boundaries_do_not_split_tokens() {
    assert_eq!(toks("ab\"c d\"ef"), vec!["abc def"]);
}

#[test]
fn unterminated_quote_flushes_partial_token() {
    assert_eq!(toks("echo 'abc"), vec!["echo", "abc"]);
    assert_eq!(toks("echo \"abc def"), vec!["echo", "abc def"]);
}

#[test]
fn empty_quoted_region_alone_contributes_no_token() {
    assert_eq!(toks("''"), Vec::<String>::new());
    assert_eq!(toks("\"\""), Vec::<String>::new());
    assert_eq!(toks("'' a"), vec!["a"]);
}

#[test]
fn empty_quoted_region_merges_with_adjacent_content() {
    assert_eq!(toks("a''b"), vec!["ab"]);
    assert_eq!(toks("''ab"), vec!["ab"]);
}

#[test]
fn backslash_is_a_literal_character() {
    assert_eq!(toks("a\\b \"c\\d\""), vec!["a\\b", "c\\d"]);
}

#[test]
fn leading_and_trailing_whitespace_produce_no_empty_tokens() {
    assert_eq!(toks("  a  "), vec!["a"]);
}
