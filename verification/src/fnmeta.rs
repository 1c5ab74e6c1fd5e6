//! Where the name of a function goes into its body.
//!
//! An attribute that gives a function the constant `FUNCTION_NAME` has to
//! find, in the tokens of the function, the body that belongs to each name.
//! That decision is made here, on a plain model of the tokens; building the
//! new body is left to the caller, which holds the real tokens.

use vstd::prelude::*;

verus! {

/// What the search reads of one token.
#[derive(Debug, PartialEq, Eq)]
pub enum Token {
    /// An identifier or a keyword, with its text.
    Ident(String),
    /// A group in braces.
    BraceGroup,
    /// A group in other delimiters.
    OtherGroup,
    /// Anything else: punctuation or a literal.
    Other,
}

/// The token is the keyword `fn`.
pub open spec fn is_fn_keyword(t: Token) -> bool {
    t matches Token::Ident(text) && text@ == "fn"@
}

/// A function is declared at `at`: the keyword `fn` with an identifier, the
/// function's name, right behind it.
pub open spec fn declares_at(tokens: Seq<Token>, at: int) -> bool {
    &&& 0 <= at
    &&& at + 1 < tokens.len()
    &&& is_fn_keyword(tokens[at])
    &&& tokens[at + 1] is Ident
}

/// The sites that a scan finds from position `from` on, when it is looking
/// for the body of `pending` (if any): the scan goes token by token; outside
/// a declaration it looks for the next one and takes its name; with a name
/// at hand, the first brace group is that function's body, and is a site.
pub open spec fn sites_from(tokens: Seq<Token>, from: int, pending: Option<Seq<char>>) -> Seq<
    (int, Seq<char>),
>
    decreases tokens.len() - from,
{
    if from < 0 || from >= tokens.len() {
        Seq::empty()
    } else {
        match pending {
            Some(name) => if tokens[from] is BraceGroup {
                seq![(from, name)] + sites_from(tokens, from + 1, None)
            } else {
                sites_from(tokens, from + 1, pending)
            },
            None => if declares_at(tokens, from) {
                sites_from(tokens, from + 2, Some(tokens[from + 1]->Ident_0@))
            } else {
                sites_from(tokens, from + 1, None)
            },
        }
    }
}

/// The sites of `tokens`: for each declaration that is not inside the search
/// for an earlier body, the position of the first brace group behind the name
/// and the name. A declaration without a brace group behind it has no site.
pub open spec fn sites_of(tokens: Seq<Token>) -> Seq<(int, Seq<char>)> {
    sites_from(tokens, 0, None)
}

/// `pos` is the body of the function called `name`: a brace group, and the
/// first one behind a declaration of that name.
pub open spec fn is_body_of(tokens: Seq<Token>, pos: int, name: Seq<char>) -> bool {
    &&& 0 <= pos < tokens.len()
    &&& tokens[pos] is BraceGroup
    &&& exists|at: int| #[trigger]
        declares_at(tokens, at) && names_up_to(tokens, at, pos, name)
}

/// The declaration at `at` gives `name`, and no brace group lies between the
/// name and `upto`.
pub open spec fn names_up_to(tokens: Seq<Token>, at: int, upto: int, name: Seq<char>) -> bool {
    &&& at + 1 < upto
    &&& tokens[at + 1]->Ident_0@ == name
    &&& forall|m: int| at + 1 < m < upto ==> !(#[trigger] tokens[m] is BraceGroup)
}

/// What a scan finds are bodies, each with the name declared before it, in
/// the order of the tokens.
pub proof fn lemma_sites_from_are_bodies(
    tokens: Seq<Token>,
    from: int,
    pending: Option<Seq<char>>,
)
    requires
        0 <= from,
        pending matches Some(name) ==> exists|at: int| #[trigger]
            declares_at(tokens, at) && names_up_to(tokens, at, from, name),
    ensures
        forall|k: int|
            0 <= k < sites_from(tokens, from, pending).len() ==> {
                let site = #[trigger] sites_from(tokens, from, pending)[k];
                from <= site.0 && is_body_of(tokens, site.0, site.1)
            },
        forall|k: int, l: int|
            0 <= k < l < sites_from(tokens, from, pending).len() ==> (#[trigger] sites_from(
                tokens,
                from,
                pending,
            )[k]).0 < (#[trigger] sites_from(tokens, from, pending)[l]).0,
    decreases tokens.len() - from,
{
    let found = sites_from(tokens, from, pending);
    if from < tokens.len() {
        match pending {
            Some(name) => {
                let at = choose|at: int| #[trigger]
                    declares_at(tokens, at) && names_up_to(tokens, at, from, name);
                if tokens[from] is BraceGroup {
                    let rest = sites_from(tokens, from + 1, None);
                    lemma_sites_from_are_bodies(tokens, from + 1, None);
                    assert(is_body_of(tokens, from, name));
                    assert(found == seq![(from, name)] + rest);
                    assert forall|k: int| 0 <= k < found.len() implies {
                        let site = #[trigger] found[k];
                        from <= site.0 && is_body_of(tokens, site.0, site.1)
                    } by {
                        if k > 0 {
                            assert(found[k] == rest[k - 1]);
                        }
                    }
                    assert forall|k: int, l: int| 0 <= k < l < found.len() implies {
                        (#[trigger] found[k]).0 < (#[trigger] found[l]).0
                    } by {
                        assert(found[l] == rest[l - 1]);
                        if k > 0 {
                            assert(found[k] == rest[k - 1]);
                        }
                    }
                } else {
                    assert(names_up_to(tokens, at, from + 1, name));
                    lemma_sites_from_are_bodies(tokens, from + 1, pending);
                    assert(found == sites_from(tokens, from + 1, pending));
                }
            },
            None => {
                if declares_at(tokens, from) {
                    assert(names_up_to(tokens, from, from + 2, tokens[from + 1]->Ident_0@));
                    lemma_sites_from_are_bodies(
                        tokens,
                        from + 2,
                        Some(tokens[from + 1]->Ident_0@),
                    );
                    assert(found == sites_from(
                        tokens,
                        from + 2,
                        Some(tokens[from + 1]->Ident_0@),
                    ));
                } else {
                    lemma_sites_from_are_bodies(tokens, from + 1, None);
                    assert(found == sites_from(tokens, from + 1, None));
                }
            },
        }
    }
}

/// Every site is the body of the function whose name it carries, and the
/// sites come in the order of the tokens.
pub proof fn lemma_sites_are_bodies(tokens: Seq<Token>)
    ensures
        forall|k: int|
            0 <= k < sites_of(tokens).len() ==> is_body_of(
                tokens,
                (#[trigger] sites_of(tokens)[k]).0,
                sites_of(tokens)[k].1,
            ),
        forall|k: int, l: int|
            0 <= k < l < sites_of(tokens).len() ==> {
                (#[trigger] sites_of(tokens)[k]).0 < (#[trigger] sites_of(tokens)[l]).0
            },
{
    lemma_sites_from_are_bodies(tokens, 0, None);
}

/// Positions and names as mathematical values.
pub open spec fn sites_view(sites: Seq<(usize, String)>) -> Seq<(int, Seq<char>)> {
    sites.map_values(|site: (usize, String)| (site.0 as int, site.1@))
}

/// Whether the token is the keyword `fn`.
fn is_fn(t: &Token) -> (b: bool)
    ensures
        b == is_fn_keyword(*t),
{
    match t {
        Token::Ident(text) => {
            proof {
                reveal_strlit("fn");
            }
            let s = text.as_str();
            let b = s.unicode_len() == 2 && s.get_char(0) == 'f' && s.get_char(1) == 'n';
            assert(b == (text@ =~= "fn"@));
            b
        },
        _ => false,
    }
}

/// Finds the bodies that are to receive a function's name: the position of
/// each and the name that belongs to it, in the order of the tokens.
pub fn injection_sites(tokens: &[Token]) -> (sites: Vec<(usize, String)>)
    ensures
        sites_view(sites@) == sites_of(tokens@),
{
    let mut sites: Vec<(usize, String)> = Vec::new();
    let mut pending: Option<&String> = None;
    let mut i: usize = 0;
    while i < tokens.len()
        invariant
            i <= tokens.len(),
            sites_of(tokens@) == sites_view(sites@) + sites_from(
                tokens@,
                i as int,
                match pending {
                    Some(name) => Some(name@),
                    None => None,
                },
            ),
        decreases tokens.len() - i,
    {
        let ghost found = sites_view(sites@);
        match pending {
            Some(name) => {
                if let Token::BraceGroup = &tokens[i] {
                    sites.push((i, name.clone()));
                    pending = None;
                    proof {
                        let rest = sites_from(tokens@, i + 1, None);
                        assert(sites_view(sites@) == found + seq![(i as int, name@)]);
                        assert(found + (seq![(i as int, name@)] + rest) == found + seq![
                            (i as int, name@),
                        ] + rest);
                    }
                }
                i += 1;
            },
            None => {
                if is_fn(&tokens[i]) && i + 1 < tokens.len() {
                    if let Token::Ident(name) = &tokens[i + 1] {
                        pending = Some(name);
                        i += 2;
                    } else {
                        i += 1;
                    }
                } else {
                    i += 1;
                }
            },
        }
    }
    proof {
        assert(sites_view(sites@) + Seq::<(int, Seq<char>)>::empty() == sites_view(sites@));
    }
    sites
}

} // verus!
