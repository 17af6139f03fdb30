//! The MIME resolver: a fixed extension-to-content-type table.
//!
//! The extension is the part of the path's final component after its last
//! dot, provided the dot is not the component's first byte.  Unknown or
//! absent extensions resolve to `application/octet-stream`.

use vstd::prelude::*;

use crate::text::{bytes_of, bytes_eq, lit_bytes, sub_to_vec};

verus! {

/// The last position of `b` in `s`, or `None`.
pub open spec fn rfind(s: Seq<u8>, b: u8) -> Option<int>
    decreases s.len(),
{
    if s.len() == 0 {
        None
    } else if s[s.len() - 1] == b {
        Some(s.len() - 1)
    } else {
        rfind(s.drop_last(), b)
    }
}

/// The extension of a path: the part of its final component after the
/// last dot, unless that dot begins the component.
pub open spec fn ext_of(p: Seq<u8>) -> Option<Seq<u8>> {
    let name_start: int = match rfind(p, 47u8) {
        Some(i) => i + 1,
        None => 0,
    };
    let name = p.subrange(name_start, p.len() as int);
    match rfind(name, 46u8) {
        Some(j) => if j > 0 {
            Some(name.subrange(j + 1, name.len() as int))
        } else {
            None
        },
        None => None,
    }
}

/// The fixed extension-to-content-type table.
pub open spec fn mime_for(e: Option<Seq<u8>>) -> Seq<u8> {
    if e == Some(bytes_of("html"@)) {
        bytes_of("text/html"@)
    } else if e == Some(bytes_of("css"@)) {
        bytes_of("text/css"@)
    } else if e == Some(bytes_of("js"@)) {
        bytes_of("text/javascript"@)
    } else if e == Some(bytes_of("txt"@)) {
        bytes_of("text/plain"@)
    } else if e == Some(bytes_of("json"@)) {
        bytes_of("application/json"@)
    } else if e == Some(bytes_of("png"@)) {
        bytes_of("image/png"@)
    } else if e == Some(bytes_of("jpg"@)) || e == Some(bytes_of("jpeg"@)) {
        bytes_of("image/jpeg"@)
    } else if e == Some(bytes_of("gif"@)) {
        bytes_of("image/gif"@)
    } else if e == Some(bytes_of("zip"@)) {
        bytes_of("application/zip"@)
    } else {
        bytes_of("application/octet-stream"@)
    }
}

/// The last position of `b` in `s`, per [`rfind`].
fn rfind_byte(s: &[u8], b: u8) -> (r: Option<usize>)
    ensures
        match r {
            Some(i) => rfind(s@, b) == Some(i as int),
            None => rfind(s@, b) is None,
        },
{
    let mut k: usize = s.len();
    proof {
        assert(s@.subrange(0, s@.len() as int) =~= s@);
    }
    while k > 0
        invariant
            k <= s@.len(),
            rfind(s@, b) == rfind(s@.subrange(0, k as int), b),
        decreases k,
    {
        if s[k - 1] == b {
            proof {
                assert(rfind(s@.subrange(0, k as int), b) == Some(k - 1));
            }
            return Some(k - 1);
        }
        proof {
            assert(s@.subrange(0, k as int).drop_last() =~= s@.subrange(0, k - 1));
        }
        k -= 1;
    }
    proof {
        assert(s@.subrange(0, 0) =~= Seq::<u8>::empty());
    }
    None
}

/// Resolves a path to its content type through [`mime_for`].
pub fn get_content_type(path: &[u8]) -> (r: Vec<u8>)
    ensures
        r@ == mime_for(ext_of(path@)),
{
    let plen: usize = path.len();
    let slash = rfind_byte(path, 47);
    proof {
        if rfind(path@, 47u8) is Some {
            lemma_rfind_in_range(path@, 47u8);
        }
    }
    let name_start: usize = match slash {
        Some(i) => i + 1,
        None => 0,
    };
    let name = sub_to_vec(path, name_start, plen);
    let nlen: usize = name.len();
    let ext: Option<Vec<u8>> = match rfind_byte(name.as_slice(), 46) {
        Some(j) => {
            proof {
                lemma_rfind_in_range(name@, 46u8);
            }
            if j > 0 {
                Some(sub_to_vec(name.as_slice(), j + 1, nlen))
            } else {
                None
            }
        },
        None => None,
    };
    proof {
        match &ext {
            Some(v) => {
                assert(ext_of(path@) == Some(v@));
            },
            None => {
                assert(ext_of(path@) is None);
            },
        }
    }
    match ext {
        Some(e) => {
            proof {
                reveal_strlit("html");
                reveal_strlit("css");
                reveal_strlit("js");
                reveal_strlit("txt");
                reveal_strlit("json");
                reveal_strlit("png");
                reveal_strlit("jpg");
                reveal_strlit("jpeg");
                reveal_strlit("gif");
                reveal_strlit("zip");
            }
            if bytes_eq(e.as_slice(), lit_bytes("html").as_slice()) {
                proof {
                    reveal_strlit("text/html");
                }
                lit_bytes("text/html")
            } else if bytes_eq(e.as_slice(), lit_bytes("css").as_slice()) {
                proof {
                    reveal_strlit("text/css");
                }
                lit_bytes("text/css")
            } else if bytes_eq(e.as_slice(), lit_bytes("js").as_slice()) {
                proof {
                    reveal_strlit("text/javascript");
                }
                lit_bytes("text/javascript")
            } else if bytes_eq(e.as_slice(), lit_bytes("txt").as_slice()) {
                proof {
                    reveal_strlit("text/plain");
                }
                lit_bytes("text/plain")
            } else if bytes_eq(e.as_slice(), lit_bytes("json").as_slice()) {
                proof {
                    reveal_strlit("application/json");
                }
                lit_bytes("application/json")
            } else if bytes_eq(e.as_slice(), lit_bytes("png").as_slice()) {
                proof {
                    reveal_strlit("image/png");
                }
                lit_bytes("image/png")
            } else if bytes_eq(e.as_slice(), lit_bytes("jpg").as_slice()) || bytes_eq(
                e.as_slice(),
                lit_bytes("jpeg").as_slice(),
            ) {
                proof {
                    reveal_strlit("image/jpeg");
                }
                lit_bytes("image/jpeg")
            } else if bytes_eq(e.as_slice(), lit_bytes("gif").as_slice()) {
                proof {
                    reveal_strlit("image/gif");
                }
                lit_bytes("image/gif")
            } else if bytes_eq(e.as_slice(), lit_bytes("zip").as_slice()) {
                proof {
                    reveal_strlit("application/zip");
                }
                lit_bytes("application/zip")
            } else {
                proof {
                    reveal_strlit("application/octet-stream");
                }
                lit_bytes("application/octet-stream")
            }
        },
        None => {
            proof {
                reveal_strlit("application/octet-stream");
            }
            lit_bytes("application/octet-stream")
        },
    }
}

/// Law: an extension outside the fixed table — and an absent one —
/// resolves to `application/octet-stream`.
pub proof fn lemma_unknown_extension_is_octet_stream(e: Option<Seq<u8>>)
    requires
        e != Some(bytes_of("html"@)),
        e != Some(bytes_of("css"@)),
        e != Some(bytes_of("js"@)),
        e != Some(bytes_of("txt"@)),
        e != Some(bytes_of("json"@)),
        e != Some(bytes_of("png"@)),
        e != Some(bytes_of("jpg"@)),
        e != Some(bytes_of("jpeg"@)),
        e != Some(bytes_of("gif"@)),
        e != Some(bytes_of("zip"@)),
    ensures
        mime_for(e) == bytes_of("application/octet-stream"@),
{
}

/// A found `rfind` position lies within `s` and holds `b`.
pub proof fn lemma_rfind_in_range(s: Seq<u8>, b: u8)
    requires
        rfind(s, b) is Some,
    ensures
        0 <= rfind(s, b)->Some_0 < s.len(),
        s[rfind(s, b)->Some_0] == b,
    decreases s.len(),
{
    if s.len() == 0 {
    } else if s[s.len() - 1] == b {
    } else {
        lemma_rfind_in_range(s.drop_last(), b);
        assert(s.drop_last()[rfind(s.drop_last(), b)->Some_0] == s[rfind(s, b)->Some_0]);
    }
}

} // verus!
