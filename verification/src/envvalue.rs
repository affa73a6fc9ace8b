//! Environment values of a configuration: plain text, or a reference, written
//! `${{ this.<service>.<method> }}` or `${{ secret.<key> }}`, to something that
//! is only known at deployment.
use vstd::prelude::*;
use crate::text::{chars_of, find_char, trim, trim_bounds};

verus! {

/// A parsed environment value.
#[derive(Debug)]
pub enum EnvValues {
    /// What another service of the project offers (its connection string, its link).
    This { service: String, method: String },
    /// A literal value.
    Text(String),
    /// The value of a project secret.
    Secret(String),
}

/// An environment value as character sequences.
pub enum EnvValueView {
    This { service: Seq<char>, method: Seq<char> },
    Text(Seq<char>),
    Secret(Seq<char>),
}

impl View for EnvValues {
    type V = EnvValueView;

    open spec fn view(&self) -> EnvValueView {
        match self {
            EnvValues::This { service, method } => EnvValueView::This {
                service: service@,
                method: method@,
            },
            EnvValues::Text(t) => EnvValueView::Text(t@),
            EnvValues::Secret(k) => EnvValueView::Secret(k@),
        }
    }
}

/// `s` is written as a reference: `${{`, a body, `}}`.
pub open spec fn is_template(s: Seq<char>) -> bool {
    &&& s.len() >= 5
    &&& s.take(3) == seq!['$', '{', '{']
    &&& s.skip(s.len() - 2) == seq!['}', '}']
}

/// The body of a reference, without the spaces around it.
pub open spec fn template_body(s: Seq<char>) -> Seq<char> {
    trim(s.subrange(3, s.len() - 2))
}

pub open spec fn this_prefix() -> Seq<char> {
    seq!['t', 'h', 'i', 's', '.']
}

pub open spec fn secret_prefix() -> Seq<char> {
    seq!['s', 'e', 'c', 'r', 'e', 't', '.']
}

/// `p` is the one dot of `rest`, with characters on both sides of it.
pub open spec fn sole_inner_dot(rest: Seq<char>, p: int) -> bool {
    &&& 0 < p < rest.len() - 1
    &&& rest[p] == '.'
    &&& !rest.take(p).contains('.')
    &&& !rest.skip(p + 1).contains('.')
}

/// The reference that the body of a template names, if it names one.
pub open spec fn parse_reference(body: Seq<char>) -> Option<EnvValueView> {
    if body.len() >= 5 && body.take(5) == this_prefix() {
        let rest = body.skip(5);
        if exists|p: int| sole_inner_dot(rest, p) {
            let p = choose|p: int| sole_inner_dot(rest, p);
            Some(EnvValueView::This { service: rest.take(p), method: rest.skip(p + 1) })
        } else {
            None
        }
    } else if body.len() > 7 && body.take(7) == secret_prefix() && !body.skip(7).contains('.') {
        Some(EnvValueView::Secret(body.skip(7)))
    } else {
        None
    }
}

/// The meaning of a raw environment value: a reference where it is written as
/// one, `None` where that reference is malformed, and literal text otherwise.
pub open spec fn parse_env_value(raw: Seq<char>) -> Option<EnvValueView> {
    if is_template(raw) {
        parse_reference(template_body(raw))
    } else {
        Some(EnvValueView::Text(raw))
    }
}

pub open spec fn opt_env_view(r: Option<EnvValues>) -> Option<EnvValueView> {
    match r {
        Some(v) => Some(v@),
        None => None,
    }
}

/// Parses a raw environment value.
pub fn parse_env(raw: &str) -> (r: Option<EnvValues>)
    ensures
        opt_env_view(r) == parse_env_value(raw@),
{
    let cs = chars_of(raw);
    let n = cs.len();
    let template = n >= 5 && cs[0] == '$' && cs[1] == '{' && cs[2] == '{' && cs[n - 2] == '}'
        && cs[n - 1] == '}';
    if !template {
        proof {
            if is_template(raw@) {
                assert(raw@.take(3)[0] == '$' && raw@.take(3)[1] == '{' && raw@.take(3)[2] == '{');
                assert(raw@.skip(n - 2)[0] == '}' && raw@.skip(n - 2)[1] == '}');
            }
        }
        return Some(EnvValues::Text(raw.to_owned()));
    }
    assert(raw@.take(3) =~= seq!['$', '{', '{']);
    assert(raw@.skip(n - 2) =~= seq!['}', '}']);
    let (a, b) = trim_bounds(&cs, 3, n - 2);
    let ghost body = cs@.subrange(a as int, b as int);
    assert(body == template_body(raw@));
    if b - a >= 5 && cs[a] == 't' && cs[a + 1] == 'h' && cs[a + 2] == 'i' && cs[a + 3] == 's'
        && cs[a + 4] == '.' {
        assert(body.take(5) =~= this_prefix());
        let ghost rest = body.skip(5);
        assert(rest =~= cs@.subrange(a + 5, b as int));
        match find_char(&cs, '.', a + 5, b) {
            Some(p) => {
                let q = find_char(&cs, '.', p + 1, b);
                if p > a + 5 && p + 1 < b && q.is_none() {
                    let ghost pp = p - (a + 5);
                    assert(sole_inner_dot(rest, pp)) by {
                        assert(rest[pp] == '.');
                        assert forall|j: int| 0 <= j < pp implies #[trigger] rest.take(pp)[j] != '.' by {
                            assert(rest.take(pp)[j] == cs@[a + 5 + j]);
                        }
                        assert forall|j: int| 0 <= j < rest.len() - pp - 1 implies #[trigger] rest.skip(pp + 1)[j] != '.' by {
                            assert(rest.skip(pp + 1)[j] == cs@[p + 1 + j]);
                        }
                    }
                    let ghost sp = choose|x: int| sole_inner_dot(rest, x);
                    assert(sp == pp) by {
                        if sp < pp {
                            assert(rest.take(pp)[sp] == '.');
                        } else if sp > pp {
                            assert(rest.take(sp)[pp] == '.');
                        }
                    }
                    let service = raw.substring_char(a + 5, p).to_owned();
                    let method = raw.substring_char(p + 1, b).to_owned();
                    assert(service@ =~= rest.take(pp));
                    assert(method@ =~= rest.skip(pp + 1));
                    return Some(EnvValues::This { service, method });
                } else {
                    proof {
                        if exists|x: int| sole_inner_dot(rest, x) {
                            let x = choose|x: int| sole_inner_dot(rest, x);
                            let pp = p - (a + 5);
                            if x < pp {
                                assert(cs@[a + 5 + x] == '.');
                            } else if x > pp {
                                assert(rest.take(x)[pp] == '.');
                            } else {
                                if q is Some {
                                    let qq = q.unwrap();
                                    assert(rest.skip(pp + 1)[qq - p - 1] == '.');
                                }
                            }
                        }
                    }
                    return None;
                }
            },
            None => {
                proof {
                    if exists|x: int| sole_inner_dot(rest, x) {
                        let x = choose|x: int| sole_inner_dot(rest, x);
                        assert(cs@[a + 5 + x] == '.');
                    }
                }
                return None;
            },
        }
    }
    assert(!(body.len() >= 5 && body.take(5) == this_prefix())) by {
        if body.len() >= 5 && body.take(5) == this_prefix() {
            assert(body.take(5)[0] == 't' && body.take(5)[1] == 'h' && body.take(5)[2] == 'i'
                && body.take(5)[3] == 's' && body.take(5)[4] == '.');
        }
    }
    if b - a > 7 && cs[a] == 's' && cs[a + 1] == 'e' && cs[a + 2] == 'c' && cs[a + 3] == 'r'
        && cs[a + 4] == 'e' && cs[a + 5] == 't' && cs[a + 6] == '.' {
        assert(body.take(7) =~= secret_prefix());
        let ghost key = body.skip(7);
        match find_char(&cs, '.', a + 7, b) {
            Some(p) => {
                assert(key[p - a - 7] == '.');
                None
            },
            None => {
                assert(!key.contains('.')) by {
                    if key.contains('.') {
                        let j = choose|j: int| 0 <= j < key.len() && key[j] == '.';
                        assert(cs@[a + 7 + j] == '.');
                    }
                }
                let k = raw.substring_char(a + 7, b).to_owned();
                assert(k@ =~= key);
                Some(EnvValues::Secret(k))
            },
        }
    } else {
        proof {
            if body.len() > 7 && body.take(7) == secret_prefix() {
                assert(body.take(7)[0] == 's' && body.take(7)[1] == 'e' && body.take(7)[2] == 'c'
                    && body.take(7)[3] == 'r' && body.take(7)[4] == 'e' && body.take(7)[5] == 't'
                    && body.take(7)[6] == '.');
            }
        }
        None
    }
}

} // verus!
