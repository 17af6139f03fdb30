//! The directory-listing renderer: an HTML unordered list with one entry
//! per immediate child, after a parent-directory link.  Entries appear in
//! the order the filesystem handed them over; no order is promised.

use vstd::prelude::*;

use crate::text::{bytes_of, lit_bytes, occurs_at, occurs_in, push_all, vecs_view};

verus! {

/// One list entry: a link whose href and text are both the entry name.
pub open spec fn li_entry(name: Seq<u8>) -> Seq<u8> {
    bytes_of("<li><a href=\""@) + name + bytes_of("\">"@) + name + bytes_of("</a></li>"@)
}

/// All entries, in order.
pub open spec fn listing_items(names: Seq<Seq<u8>>) -> Seq<u8>
    decreases names.len(),
{
    if names.len() == 0 {
        Seq::empty()
    } else {
        li_entry(names[0]) + listing_items(names.drop_first())
    }
}

/// The opening of the listing page, parent link included.
pub open spec fn listing_prefix() -> Seq<u8> {
    bytes_of("<html><h1>Directory Listing</h1><ul>"@) + li_entry(bytes_of(".."@))
}

/// The closing of the listing page.
pub open spec fn listing_suffix() -> Seq<u8> {
    bytes_of("</ul></html>"@)
}

/// The whole listing page for the given child names.
pub open spec fn listing_html(names: Seq<Seq<u8>>) -> Seq<u8> {
    listing_prefix() + listing_items(names) + listing_suffix()
}

/// Appending one more name appends exactly its entry.
proof fn lemma_listing_items_snoc(names: Seq<Seq<u8>>, n: Seq<u8>)
    ensures
        listing_items(names.push(n)) == listing_items(names) + li_entry(n),
    decreases names.len(),
{
    let pushed = names.push(n);
    if names.len() == 0 {
        assert(pushed[0] == n);
        assert(pushed.drop_first() =~= Seq::<Seq<u8>>::empty());
        assert(listing_items(pushed) == li_entry(n) + listing_items(pushed.drop_first()));
        assert(li_entry(n) + Seq::<u8>::empty() =~= li_entry(n));
        assert(listing_items(names) + li_entry(n) =~= li_entry(n));
    } else {
        assert(pushed.drop_first() =~= names.drop_first().push(n));
        lemma_listing_items_snoc(names.drop_first(), n);
        assert(li_entry(names[0]) + (listing_items(names.drop_first()) + li_entry(n))
            =~= (li_entry(names[0]) + listing_items(names.drop_first())) + li_entry(n));
    }
}

/// Renders the listing page, per [`listing_html`].
pub fn render_listing(names: &Vec<Vec<u8>>) -> (out: Vec<u8>)
    ensures
        out@ == listing_html(vecs_view(names@)),
{
    proof {
        reveal_strlit("<html><h1>Directory Listing</h1><ul>");
        reveal_strlit("<li><a href=\"");
        reveal_strlit("\">");
        reveal_strlit("</a></li>");
        reveal_strlit("..");
        reveal_strlit("</ul></html>");
    }
    let mut out = lit_bytes("<html><h1>Directory Listing</h1><ul>");
    let open_tag = lit_bytes("<li><a href=\"");
    let mid_tag = lit_bytes("\">");
    let close_tag = lit_bytes("</a></li>");
    let parent = lit_bytes("..");
    push_all(&mut out, open_tag.as_slice());
    push_all(&mut out, parent.as_slice());
    push_all(&mut out, mid_tag.as_slice());
    push_all(&mut out, parent.as_slice());
    push_all(&mut out, close_tag.as_slice());
    proof {
        assert(out@ =~= listing_prefix());
    }
    let mut k: usize = 0;
    while k < names.len()
        invariant
            k <= names@.len(),
            open_tag@ == bytes_of("<li><a href=\""@),
            mid_tag@ == bytes_of("\">"@),
            close_tag@ == bytes_of("</a></li>"@),
            out@ == listing_prefix() + listing_items(vecs_view(names@).subrange(0, k as int)),
        decreases names@.len() - k,
    {
        let name = &names[k];
        push_all(&mut out, open_tag.as_slice());
        push_all(&mut out, name.as_slice());
        push_all(&mut out, mid_tag.as_slice());
        push_all(&mut out, name.as_slice());
        push_all(&mut out, close_tag.as_slice());
        proof {
            let done = vecs_view(names@).subrange(0, k as int);
            assert(vecs_view(names@).subrange(0, k + 1) =~= done.push(name@));
            lemma_listing_items_snoc(done, name@);
            assert(out@ =~= listing_prefix() + listing_items(vecs_view(names@).subrange(0, k + 1)));
        }
        k += 1;
    }
    let suffix = lit_bytes("</ul></html>");
    push_all(&mut out, suffix.as_slice());
    proof {
        assert(vecs_view(names@).subrange(0, names@.len() as int) =~= vecs_view(names@));
        assert(out@ =~= listing_html(vecs_view(names@)));
    }
    out
}

/// Every entry's markup stands somewhere in [`listing_items`].
proof fn lemma_items_contain(names: Seq<Seq<u8>>, i: int)
    requires
        0 <= i < names.len(),
    ensures
        exists|k: int| #[trigger]
            occurs_at(listing_items(names), li_entry(names[i]), k),
    decreases names.len(),
{
    if i == 0 {
        assert(listing_items(names).subrange(0, li_entry(names[0]).len() as int) =~= li_entry(
            names[0],
        ));
        assert(occurs_at(listing_items(names), li_entry(names[0]), 0));
    } else {
        lemma_items_contain(names.drop_first(), i - 1);
        let k0 = choose|k: int| #[trigger]
            occurs_at(listing_items(names.drop_first()), li_entry(names.drop_first()[i - 1]), k);
        let head_len = li_entry(names[0]).len() as int;
        assert(names.drop_first()[i - 1] == names[i]);
        assert(listing_items(names).subrange(
            head_len + k0,
            head_len + k0 + li_entry(names[i]).len(),
        ) =~= listing_items(names.drop_first()).subrange(k0, k0 + li_entry(names[i]).len()));
        assert(occurs_at(listing_items(names), li_entry(names[i]), head_len + k0));
    }
}

/// Law: the listing page holds one list entry per immediate child.
pub proof fn lemma_listing_contains_each_entry(names: Seq<Seq<u8>>, i: int)
    requires
        0 <= i < names.len(),
    ensures
        occurs_in(listing_html(names), li_entry(names[i])),
{
    lemma_items_contain(names, i);
    let k0 = choose|k: int| #[trigger] occurs_at(listing_items(names), li_entry(names[i]), k);
    let base = listing_prefix().len() as int;
    assert(listing_html(names).subrange(base + k0, base + k0 + li_entry(names[i]).len())
        =~= listing_items(names).subrange(k0, k0 + li_entry(names[i]).len()));
    assert(occurs_at(listing_html(names), li_entry(names[i]), base + k0));
}

/// Law: the listing page holds the parent-directory link, right after the
/// page opening.
pub proof fn lemma_listing_contains_parent_link(names: Seq<Seq<u8>>)
    ensures
        occurs_in(listing_html(names), li_entry(bytes_of(".."@))),
{
    let parent = li_entry(bytes_of(".."@));
    let base = bytes_of("<html><h1>Directory Listing</h1><ul>"@).len() as int;
    assert(listing_html(names).subrange(base, base + parent.len()) =~= parent);
    assert(occurs_at(listing_html(names), parent, base));
}

} // verus!
