use quantor::fnmeta::{injection_sites, Token};

fn ident(text: &str) -> Token {
    Token::Ident(String::from(text))
}

#[test]
fn the_body_of_a_function_is_a_site_with_its_name() {
    // pub fn run ( ) { }
    let tokens = [ident("pub"), ident("fn"), ident("run"), Token::OtherGroup, Token::BraceGroup];
    assert_eq!(injection_sites(&tokens), vec![(4, String::from("run"))]);
}

#[test]
fn every_function_has_its_own_site() {
    // fn a ( ) { } fn b ( ) -> u8 { }
    let tokens = [
        ident("fn"),
        ident("a"),
        Token::OtherGroup,
        Token::BraceGroup,
        ident("fn"),
        ident("b"),
        Token::OtherGroup,
        Token::Other,
        Token::Other,
        ident("u8"),
        Token::BraceGroup,
    ];
    assert_eq!(
        injection_sites(&tokens),
        vec![(3, String::from("a")), (10, String::from("b"))]
    );
}

#[test]
fn only_the_first_brace_group_behind_a_name_is_a_site() {
    // fn a ( ) { } { }
    let tokens =
        [ident("fn"), ident("a"), Token::OtherGroup, Token::BraceGroup, Token::BraceGroup];
    assert_eq!(injection_sites(&tokens), vec![(3, String::from("a"))]);
}

#[test]
fn a_function_type_in_a_signature_starts_no_new_search() {
    // fn apply ( ) -> fn ( u8 ) -> u8 { }
    let tokens = [
        ident("fn"),
        ident("apply"),
        Token::OtherGroup,
        Token::Other,
        Token::Other,
        ident("fn"),
        Token::OtherGroup,
        Token::Other,
        Token::Other,
        ident("u8"),
        Token::BraceGroup,
    ];
    assert_eq!(injection_sites(&tokens), vec![(10, String::from("apply"))]);
}

#[test]
fn a_declaration_inside_a_search_is_passed_over() {
    // fn a fn b { }
    let tokens = [ident("fn"), ident("a"), ident("fn"), ident("b"), Token::BraceGroup];
    assert_eq!(injection_sites(&tokens), vec![(4, String::from("a"))]);
}

#[test]
fn a_declaration_without_a_body_has_no_site() {
    // fn a ( ) ;
    let tokens = [ident("fn"), ident("a"), Token::OtherGroup, Token::Other];
    assert!(injection_sites(&tokens).is_empty());
}

#[test]
fn the_keyword_without_a_name_declares_nothing() {
    // fn ( ) { }   and   { } fn
    let unnamed = [ident("fn"), Token::OtherGroup, Token::BraceGroup];
    assert!(injection_sites(&unnamed).is_empty());
    let at_the_end = [Token::BraceGroup, ident("fn")];
    assert!(injection_sites(&at_the_end).is_empty());
}

#[test]
fn a_token_behind_an_unnamed_keyword_is_still_read() {
    // fn ( ) fn a { }
    let tokens = [ident("fn"), Token::OtherGroup, ident("fn"), ident("a"), Token::BraceGroup];
    assert_eq!(injection_sites(&tokens), vec![(4, String::from("a"))]);
    // fn fn a { } : the second keyword is taken as the name
    let doubled = [ident("fn"), ident("fn"), ident("a"), Token::BraceGroup];
    assert_eq!(injection_sites(&doubled), vec![(3, String::from("fn"))]);
}

#[test]
fn only_the_exact_keyword_declares() {
    let tokens = [ident("fnn"), ident("a"), Token::BraceGroup, ident("f"), ident("b"), Token::BraceGroup];
    assert!(injection_sites(&tokens).is_empty());
    let upper = [ident("Fn"), ident("a"), Token::BraceGroup];
    assert!(injection_sites(&upper).is_empty());
}

#[test]
fn brace_groups_without_a_declaration_are_no_sites() {
    let tokens = [Token::BraceGroup, Token::Other, Token::OtherGroup, Token::BraceGroup];
    assert!(injection_sites(&tokens).is_empty());
    let empty: [Token; 0] = [];
    assert!(injection_sites(&empty).is_empty());
}
