//! The listing of a folder: which of its entries are shown, and in which
//! order.

use crate::path::{file_name_of, path_file_name};
use crate::text::{lex_le, to_chars};
use vstd::multiset::Multiset;
use vstd::prelude::*;

verus! {

/// An entry of a folder with what the file system says of it.
pub struct FolderItem {
    pub path: String,
    pub is_dir: bool,
    pub is_file: bool,
}

/// Names in the order of the listing: a path without a name comes first, the
/// others in the order of a dictionary.
pub open spec fn name_le(a: Option<Seq<char>>, b: Option<Seq<char>>) -> bool {
    match a {
        None => true,
        Some(x) => match b {
            None => false,
            Some(y) => lex_le(x, y),
        },
    }
}

/// The order of the listing: folders first, then by name.
pub open spec fn comes_before(a: FolderItem, b: FolderItem) -> bool {
    if a.is_dir == b.is_dir {
        name_le(path_file_name(a.path@), path_file_name(b.path@))
    } else {
        a.is_dir
    }
}

/// The items are in the order of the listing.
pub open spec fn ordered(items: Seq<FolderItem>) -> bool {
    forall|i: int, j: int|
        0 <= i < j < items.len() ==> comes_before(#[trigger] items[i], #[trigger] items[j])
}

/// Whether an entry is shown: it is a folder or a file, and where hidden
/// files are left out its name does not begin with a dot.
pub open spec fn shown(item: FolderItem, hide_hidden: bool) -> bool {
    &&& item.is_dir || item.is_file
    &&& !(hide_hidden && (path_file_name(item.path@) matches Some(name) && name.len() > 0 && name[0]
        == '.'))
}

/// Those of the first `n` items that are shown, in their order.
pub open spec fn kept(items: Seq<FolderItem>, hide_hidden: bool, n: int) -> Seq<FolderItem>
    decreases n,
{
    if n <= 0 {
        Seq::empty()
    } else if shown(items[n - 1], hide_hidden) {
        kept(items, hide_hidden, n - 1).push(items[n - 1])
    } else {
        kept(items, hide_hidden, n - 1)
    }
}

/// The place of `item` among sorted items, from index `k` on: before the
/// first item that does not come before it.
pub open spec fn place_of(sorted: Seq<FolderItem>, item: FolderItem, k: int) -> int
    decreases sorted.len() - k,
{
    if k < 0 || k >= sorted.len() {
        sorted.len() as int
    } else if comes_before(sorted[k], item) {
        place_of(sorted, item, k + 1)
    } else {
        k
    }
}

/// The first `n` items in the order of the listing, where items that
/// compare alike keep the order in which they came.
pub open spec fn in_order(items: Seq<FolderItem>, n: int) -> Seq<FolderItem>
    decreases n,
{
    if n <= 0 {
        Seq::empty()
    } else {
        let sorted = in_order(items, n - 1);
        sorted.insert(place_of(sorted, items[n - 1], 0), items[n - 1])
    }
}

/// Of two texts one comes before the other, or they are the same.
pub proof fn lemma_lex_le_total(a: Seq<char>, b: Seq<char>)
    ensures
        lex_le(a, b) || lex_le(b, a),
    decreases a.len(),
{
    if a.len() > 0 && b.len() > 0 && a[0] == b[0] {
        lemma_lex_le_total(a.drop_first(), b.drop_first());
    }
}

/// The order of the dictionary is transitive.
pub proof fn lemma_lex_le_transitive(a: Seq<char>, b: Seq<char>, c: Seq<char>)
    requires
        lex_le(a, b),
        lex_le(b, c),
    ensures
        lex_le(a, c),
    decreases a.len(),
{
    if a.len() > 0 && b.len() > 0 && c.len() > 0 && a[0] == b[0] && b[0] == c[0] {
        lemma_lex_le_transitive(a.drop_first(), b.drop_first(), c.drop_first());
    }
}

/// Of two items one comes before the other in the listing.
pub proof fn lemma_order_total(a: FolderItem, b: FolderItem)
    ensures
        comes_before(a, b) || comes_before(b, a),
{
    match (path_file_name(a.path@), path_file_name(b.path@)) {
        (Some(x), Some(y)) => {
            lemma_lex_le_total(x, y);
        },
        _ => {},
    }
}

/// The order of the listing is transitive.
pub proof fn lemma_order_transitive(a: FolderItem, b: FolderItem, c: FolderItem)
    requires
        comes_before(a, b),
        comes_before(b, c),
    ensures
        comes_before(a, c),
{
    match (path_file_name(a.path@), path_file_name(b.path@), path_file_name(c.path@)) {
        (Some(x), Some(y), Some(z)) => {
            if a.is_dir == b.is_dir && b.is_dir == c.is_dir {
                lemma_lex_le_transitive(x, y, z);
            }
        },
        _ => {},
    }
}

/// Whether `a` comes before `b`, or is `b`, in the order of a dictionary.
pub fn text_le(a: &Vec<char>, b: &Vec<char>) -> (le: bool)
    ensures
        le == lex_le(a@, b@),
{
    let mut i: usize = 0;
    assert(a@.skip(0) =~= a@ && b@.skip(0) =~= b@);
    while i < a.len()
        invariant
            i <= a@.len(),
            i <= b@.len(),
            lex_le(a@, b@) == lex_le(a@.skip(i as int), b@.skip(i as int)),
        decreases a@.len() - i,
    {
        if i >= b.len() {
            return false;
        }
        if a[i] != b[i] {
            return a[i] < b[i];
        }
        proof {
            assert(a@.skip(i as int).drop_first() =~= a@.skip(i + 1));
            assert(b@.skip(i as int).drop_first() =~= b@.skip(i + 1));
        }
        i += 1;
    }
    true
}

/// The name of an item as characters.
fn name_chars(item: &FolderItem) -> (name: Option<Vec<char>>)
    ensures
        match name {
            Some(chars) => path_file_name(item.path@) == Some(chars@),
            None => path_file_name(item.path@) is None,
        },
{
    match file_name_of(item.path.as_str()) {
        Some(name) => Some(to_chars(name.as_str())),
        None => None,
    }
}

/// The names of the items, each as characters.
spec fn names_of(items: Seq<FolderItem>, names: Seq<Option<Vec<char>>>) -> bool {
    &&& names.len() == items.len()
    &&& forall|i: int|
        0 <= i < items.len() ==> match #[trigger] names[i] {
            Some(chars) => path_file_name(items[i].path@) == Some(chars@),
            None => path_file_name(items[i].path@) is None,
        }
}

/// Whether an item with the given name comes before another.
fn item_le(
    a_dir: bool,
    a_name: &Option<Vec<char>>,
    b_dir: bool,
    b_name: &Option<Vec<char>>,
) -> (le: bool)
    ensures
        le == if a_dir == b_dir {
            name_le(
                match a_name {
                    Some(chars) => Some(chars@),
                    None => None,
                },
                match b_name {
                    Some(chars) => Some(chars@),
                    None => None,
                },
            )
        } else {
            a_dir
        },
{
    if a_dir != b_dir {
        return a_dir;
    }
    match a_name {
        None => true,
        Some(x) => match b_name {
            None => false,
            Some(y) => text_le(x, y),
        },
    }
}

/// Appends to `out` those of the items that are shown, in their order.
fn push_shown(out: &mut Vec<FolderItem>, items: &Vec<FolderItem>, hide_hidden: bool)
    ensures
        final(out)@ == old(out)@ + kept(items@, hide_hidden, items@.len() as int),
{
    let ghost start = out@;
    let mut i: usize = 0;
    assert(start + kept(items@, hide_hidden, 0) =~= start);
    while i < items.len()
        invariant
            i <= items@.len(),
            out@ == start + kept(items@, hide_hidden, i as int),
        decreases items@.len() - i,
    {
        let item = &items[i];
        let mut show = item.is_dir || item.is_file;
        if show && hide_hidden {
            if let Some(name) = name_chars(item) {
                if name.len() > 0 && name[0] == '.' {
                    show = false;
                }
            }
        }
        if show {
            out.push(FolderItem { path: item.path.clone(), is_dir: item.is_dir, is_file: item.is_file });
        }
        assert(out@ =~= start + kept(items@, hide_hidden, i + 1));
        i += 1;
    }
}

/// The shown items in the order of the listing: folders first, then by
/// name; items that compare alike keep their order.
pub fn sort_folder(items: &Vec<FolderItem>, hide_hidden: bool) -> (sorted: Vec<FolderItem>)
    ensures
        sorted@ == in_order(
            kept(items@, hide_hidden, items@.len() as int),
            kept(items@, hide_hidden, items@.len() as int).len() as int,
        ),
        ordered(sorted@),
        sorted@.to_multiset() == kept(items@, hide_hidden, items@.len() as int).to_multiset(),
{
    let mut shown_items: Vec<FolderItem> = Vec::new();
    push_shown(&mut shown_items, items, hide_hidden);
    let ghost all = kept(items@, hide_hidden, items@.len() as int);
    assert(shown_items@ =~= all);
    let mut sorted: Vec<FolderItem> = Vec::new();
    let mut names: Vec<Option<Vec<char>>> = Vec::new();
    let mut i: usize = 0;
    assert(all.take(0) =~= Seq::<FolderItem>::empty());
    while i < shown_items.len()
        invariant
            i <= shown_items@.len(),
            shown_items@ == all,
            ordered(sorted@),
            names_of(sorted@, names@),
            sorted@ == in_order(all, i as int),
            sorted@.to_multiset() == all.take(i as int).to_multiset(),
        decreases shown_items@.len() - i,
    {
        let item = &shown_items[i];
        let name = name_chars(item);
        let mut k: usize = 0;
        while k < sorted.len() && item_le(sorted[k].is_dir, &names[k], item.is_dir, &name)
            invariant
                k <= sorted@.len(),
                names_of(sorted@, names@),
                match name {
                    Some(chars) => path_file_name(item.path@) == Some(chars@),
                    None => path_file_name(item.path@) is None,
                },
                forall|j: int| 0 <= j < k ==> comes_before(#[trigger] sorted@[j], *item),
                place_of(sorted@, *item, 0) == place_of(sorted@, *item, k as int),
            decreases sorted@.len() - k,
        {
            k += 1;
        }
        assert(place_of(sorted@, *item, 0) == k);
        let copy = FolderItem {
            path: item.path.clone(),
            is_dir: item.is_dir,
            is_file: item.is_file,
        };
        assert(copy == *item);
        let ghost before = sorted@;
        proof {
            if k < before.len() {
                lemma_order_total(before[k as int], copy);
                assert forall|j: int| k <= j < before.len() implies comes_before(
                    copy,
                    #[trigger] before[j],
                ) by {
                    if j > k {
                        lemma_order_transitive(copy, before[k as int], before[j]);
                    }
                }
            }
        }
        sorted.insert(k, copy);
        names.insert(k, name);
        proof {
            vstd::seq_lib::to_multiset_insert(before, k as int, copy);
            assert(all.take(i + 1) =~= all.take(i as int).push(all[i as int]));
            vstd::seq_lib::to_multiset_build(all.take(i as int), all[i as int]);
            assert forall|a: int, b: int| 0 <= a < b < sorted@.len() implies comes_before(
                #[trigger] sorted@[a],
                #[trigger] sorted@[b],
            ) by {
                if a == k {
                    assert(sorted@[b] == before[b - 1]);
                } else if b == k {
                    assert(sorted@[a] == before[a]);
                } else {
                    let a0 = if a < k {
                        a
                    } else {
                        a - 1
                    };
                    let b0 = if b < k {
                        b
                    } else {
                        b - 1
                    };
                    assert(sorted@[a] == before[a0]);
                    assert(sorted@[b] == before[b0]);
                }
            }
        }
        i += 1;
    }
    assert(all.take(i as int) =~= all);
    sorted
}

/// The listing of a folder: the drives that are shown, in the order given,
/// and after them the entries that are shown, folders first and then by
/// name, as [`sort_folder`] orders them.
pub fn read_folder(drives: &Vec<FolderItem>, items: &Vec<FolderItem>, hide_hidden: bool) -> (listing:
    Vec<FolderItem>)
    ensures
        ({
            let roots = kept(drives@, hide_hidden, drives@.len() as int);
            let entries = kept(items@, hide_hidden, items@.len() as int);
            &&& listing@ == roots + in_order(entries, entries.len() as int)
            &&& roots.len() <= listing@.len()
            &&& listing@.take(roots.len() as int) == roots
            &&& ordered(listing@.skip(roots.len() as int))
            &&& listing@.skip(roots.len() as int).to_multiset() == kept(
                items@,
                hide_hidden,
                items@.len() as int,
            ).to_multiset()
        }),
{
    let mut listing: Vec<FolderItem> = Vec::new();
    push_shown(&mut listing, drives, hide_hidden);
    let ghost roots = listing@;
    let mut sorted = sort_folder(items, hide_hidden);
    let ghost tail = sorted@;
    listing.append(&mut sorted);
    assert(listing@.take(roots.len() as int) =~= roots);
    assert(listing@.skip(roots.len() as int) =~= tail);
    listing
}

} // verus!
