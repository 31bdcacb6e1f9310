//! Cookies and their `Set-Cookie` header rendering.

use vstd::prelude::*;

verus! {

use vstd::string::StringExecFns;
use crate::strutil::{spec_dec, u64_to_string};

#[derive(Clone, Debug)]
pub struct Cookie {
    pub key: String,
    pub value: String,
    pub options: CookieOptions,
}

#[derive(Clone, Debug)]
pub struct CookieOptions {
    pub domain: String,
    pub path: String,
    pub expires: u64,
    pub http_only: bool,
    pub max_age: u64,
    pub secure: bool,
    pub signed: bool,
    pub same_site: Option<SameSite>,
}

#[derive(Eq, PartialEq, Structural, Clone, Copy, Debug)]
pub enum SameSite {
    Strict,
    Lax,
}

impl Default for CookieOptions {
    /// All options off: empty domain and path, zero ages, no flags.
    fn default() -> (r: CookieOptions)
        ensures
            r.domain@.len() == 0,
            r.path@.len() == 0,
            r.expires == 0,
            !r.http_only,
            r.max_age == 0,
            !r.secure,
            !r.signed,
            r.same_site is None,
    {
        CookieOptions {
            domain: String::new(),
            path: String::new(),
            expires: 0,
            http_only: false,
            max_age: 0,
            secure: false,
            signed: false,
            same_site: None,
        }
    }
}

/// The option pieces joined with `, `.
pub open spec fn spec_join_pieces(pieces: Seq<Seq<char>>) -> Seq<char>
    decreases pieces.len(),
{
    if pieces.len() == 0 {
        Seq::empty()
    } else if pieces.len() == 1 {
        pieces[0]
    } else {
        pieces[0] + ", "@ + spec_join_pieces(pieces.drop_first())
    }
}

proof fn lemma_join_push(pieces: Seq<Seq<char>>, x: Seq<char>)
    requires
        pieces.len() >= 1,
    ensures
        spec_join_pieces(pieces.push(x)) == spec_join_pieces(pieces) + ", "@ + x,
    decreases pieces.len(),
{
    if pieces.len() == 1 {
        assert(pieces.push(x)[0] == pieces[0]);
        assert(pieces.push(x).drop_first() =~= seq![x]);
        assert(spec_join_pieces(seq![x]) == x);
        assert(spec_join_pieces(pieces.push(x)) =~= pieces[0] + ", "@ + x);
    } else {
        assert(pieces.push(x).drop_first() =~= pieces.drop_first().push(x));
        lemma_join_push(pieces.drop_first(), x);
        assert(spec_join_pieces(pieces.push(x)) =~= spec_join_pieces(pieces) + ", "@ + x);
    }
}

/// The option pieces of a cookie, in rendering order: the path always,
/// then expiry, age, domain, the flags, and the same-site policy, each
/// only when set.
pub open spec fn spec_cookie_pieces(options: CookieOptions) -> Seq<Seq<char>> {
    let p0 = seq!["Path="@ + options.path@];
    let p1 = if options.expires > 0 {
        p0.push("Expires="@ + spec_dec(options.expires as int))
    } else {
        p0
    };
    let p2 = if options.max_age > 0 {
        p1.push("Max-Age="@ + spec_dec(options.max_age as int))
    } else {
        p1
    };
    let p3 = if options.domain@.len() > 0 {
        p2.push("Domain="@ + options.domain@)
    } else {
        p2
    };
    let p4 = if options.secure {
        p3.push("Secure"@)
    } else {
        p3
    };
    let p5 = if options.http_only {
        p4.push("HttpOnly"@)
    } else {
        p4
    };
    match options.same_site {
        Some(SameSite::Strict) => p5.push("SameSite=Strict"@),
        Some(SameSite::Lax) => p5.push("SameSite=Lax"@),
        None => p5,
    }
}

/// The full `Set-Cookie` rendering: `key=value; ` then the option pieces
/// joined with `, `.
pub open spec fn spec_cookie_header(c: Cookie) -> Seq<char> {
    c.key@ + "="@ + c.value@ + "; "@ + spec_join_pieces(spec_cookie_pieces(c.options))
}

impl Cookie {
    /// Renders the cookie as the value of a `Set-Cookie` header.
    pub fn to_header_string(&self) -> (r: String)
        ensures
            r@ == spec_cookie_header(*self),
    {
        let options = &self.options;
        let mut joined = String::from_str("Path=");
        joined.append(options.path.as_str());
        let ghost mut pieces: Seq<Seq<char>> = seq!["Path="@ + options.path@];
        proof {
            assert(joined@ =~= spec_join_pieces(pieces));
        }
        if options.expires > 0 {
            let ghost piece = "Expires="@ + spec_dec(options.expires as int);
            proof {
                lemma_join_push(pieces, piece);
            }
            joined.append(", ");
            joined.append("Expires=");
            let digits = u64_to_string(options.expires);
            joined.append(digits.as_str());
            proof {
                pieces = pieces.push(piece);
                assert(joined@ =~= spec_join_pieces(pieces));
            }
        }
        if options.max_age > 0 {
            let ghost piece = "Max-Age="@ + spec_dec(options.max_age as int);
            proof {
                lemma_join_push(pieces, piece);
            }
            joined.append(", ");
            joined.append("Max-Age=");
            let digits = u64_to_string(options.max_age);
            joined.append(digits.as_str());
            proof {
                pieces = pieces.push(piece);
                assert(joined@ =~= spec_join_pieces(pieces));
            }
        }
        if options.domain.as_str().unicode_len() > 0 {
            let ghost piece = "Domain="@ + options.domain@;
            proof {
                lemma_join_push(pieces, piece);
            }
            joined.append(", ");
            joined.append("Domain=");
            joined.append(options.domain.as_str());
            proof {
                pieces = pieces.push(piece);
                assert(joined@ =~= spec_join_pieces(pieces));
            }
        }
        if options.secure {
            proof {
                lemma_join_push(pieces, "Secure"@);
            }
            joined.append(", ");
            joined.append("Secure");
            proof {
                pieces = pieces.push("Secure"@);
                assert(joined@ =~= spec_join_pieces(pieces));
            }
        }
        if options.http_only {
            proof {
                lemma_join_push(pieces, "HttpOnly"@);
            }
            joined.append(", ");
            joined.append("HttpOnly");
            proof {
                pieces = pieces.push("HttpOnly"@);
                assert(joined@ =~= spec_join_pieces(pieces));
            }
        }
        match options.same_site {
            Some(SameSite::Strict) => {
                proof {
                    lemma_join_push(pieces, "SameSite=Strict"@);
                }
                joined.append(", ");
                joined.append("SameSite=Strict");
                proof {
                    pieces = pieces.push("SameSite=Strict"@);
                    assert(joined@ =~= spec_join_pieces(pieces));
                }
            },
            Some(SameSite::Lax) => {
                proof {
                    lemma_join_push(pieces, "SameSite=Lax"@);
                }
                joined.append(", ");
                joined.append("SameSite=Lax");
                proof {
                    pieces = pieces.push("SameSite=Lax"@);
                    assert(joined@ =~= spec_join_pieces(pieces));
                }
            },
            None => {},
        }
        proof {
            assert(pieces == spec_cookie_pieces(*options));
        }
        let mut out = self.key.clone();
        out.append("=");
        out.append(self.value.as_str());
        out.append("; ");
        out.append(joined.as_str());
        proof {
            assert(out@ =~= spec_cookie_header(*self));
        }
        out
    }
}

} // verus!
