//! The snapshot of a page: what its data fetch returned, as bytes. The
//! server writes it into the document, and the browser reads it back in
//! place of a second fetch. A text is written as the length of its UTF-8
//! form in eight bytes, lowest first, and that form behind it. What is read
//! back must be used up to the last byte.

use vstd::prelude::*;
use vstd::bytes::{
    lemma_auto_spec_u64_to_from_le_bytes,
    spec_u64_from_le_bytes,
    spec_u64_to_le_bytes,
    u64_from_le_bytes,
    u64_to_le_bytes,
};
use vstd::slice::{slice_subrange, slice_to_vec};
use vstd::utf8::{
    decode_utf8,
    encode_utf8,
    encode_utf8_decode_utf8,
    encode_utf8_valid_utf8,
    valid_utf8,
};
use crate::session::{LoginUser, LoginUserView};
use crate::text::string_from_utf8;

verus! {

/// What the data fetch of a page returns.
#[derive(Clone, Debug, PartialEq, Eq)]
pub enum PageData {
    /// Nothing.
    Empty,
    /// The account name that a login form starts with.
    Account(String),
    /// Who is logged in.
    CurrentUser(Option<LoginUser>),
}

pub enum PageDataView {
    Empty,
    Account(Seq<char>),
    CurrentUser(Option<LoginUserView>),
}

impl View for PageData {
    type V = PageDataView;

    open spec fn view(&self) -> PageDataView {
        match self {
            PageData::Empty => PageDataView::Empty,
            PageData::Account(a) => PageDataView::Account(a@),
            PageData::CurrentUser(u) => PageDataView::CurrentUser(
                match u {
                    Some(u) => Some(u@),
                    None => None,
                },
            ),
        }
    }
}

/// The shape of a page's data.
#[derive(Clone, Copy, Debug, PartialEq, Eq, Structural)]
pub enum DataKind {
    Empty,
    Account,
    CurrentUser,
}

/// The shape of `data`.
pub open spec fn kind_of(data: PageDataView) -> DataKind {
    match data {
        PageDataView::Empty => DataKind::Empty,
        PageDataView::Account(_) => DataKind::Account,
        PageDataView::CurrentUser(_) => DataKind::CurrentUser,
    }
}

/// A text as bytes: the length of its UTF-8 form, then that form.
pub open spec fn text_bytes(s: Seq<char>) -> Seq<u8> {
    spec_u64_to_le_bytes(encode_utf8(s).len() as u64) + encode_utf8(s)
}

/// The snapshot of `data`.
pub open spec fn snapshot_of(data: PageDataView) -> Seq<u8> {
    match data {
        PageDataView::Empty => Seq::empty(),
        PageDataView::Account(a) => text_bytes(a),
        PageDataView::CurrentUser(None) => seq![0u8],
        PageDataView::CurrentUser(Some(u)) => seq![1u8] + text_bytes(u.id) + text_bytes(u.name),
    }
}

/// The text at the front of `bytes`, and the bytes behind it.
pub open spec fn read_text(bytes: Seq<u8>) -> Option<(Seq<char>, Seq<u8>)> {
    if bytes.len() < 8 {
        None
    } else {
        let n = spec_u64_from_le_bytes(bytes.subrange(0, 8)) as int;
        if bytes.len() - 8 < n {
            None
        } else if !valid_utf8(bytes.subrange(8, 8 + n)) {
            None
        } else {
            Some((decode_utf8(bytes.subrange(8, 8 + n)), bytes.subrange(8 + n, bytes.len() as int)))
        }
    }
}

/// The data of shape `kind` that `bytes` is the snapshot of.
pub open spec fn read_snapshot(kind: DataKind, bytes: Seq<u8>) -> Option<PageDataView> {
    match kind {
        DataKind::Empty => if bytes.len() == 0 {
            Some(PageDataView::Empty)
        } else {
            None
        },
        DataKind::Account => match read_text(bytes) {
            Some((a, rest)) => if rest.len() == 0 {
                Some(PageDataView::Account(a))
            } else {
                None
            },
            None => None,
        },
        DataKind::CurrentUser => if bytes.len() == 0 {
            None
        } else if bytes[0] == 0 {
            if bytes.len() == 1 {
                Some(PageDataView::CurrentUser(None))
            } else {
                None
            }
        } else if bytes[0] == 1 {
            match read_text(bytes.subrange(1, bytes.len() as int)) {
                Some((id, rest)) => match read_text(rest) {
                    Some((name, rest)) => if rest.len() == 0 {
                        Some(PageDataView::CurrentUser(Some(LoginUserView { id, name })))
                    } else {
                        None
                    },
                    None => None,
                },
                None => None,
            }
        } else {
            None
        },
    }
}

/// Whether the texts of `data` are short enough for their lengths to be written.
pub open spec fn fits(data: PageDataView) -> bool {
    match data {
        PageDataView::Empty => true,
        PageDataView::Account(a) => encode_utf8(a).len() <= u64::MAX,
        PageDataView::CurrentUser(None) => true,
        PageDataView::CurrentUser(Some(u)) => encode_utf8(u.id).len() <= u64::MAX && encode_utf8(
            u.name,
        ).len() <= u64::MAX,
    }
}

/// A text that was written is read back, with what stood behind it.
pub proof fn lemma_read_text(s: Seq<char>, rest: Seq<u8>)
    requires
        encode_utf8(s).len() <= u64::MAX,
    ensures
        read_text(text_bytes(s) + rest) == Some((s, rest)),
{
    let body = encode_utf8(s);
    let n = body.len() as u64;
    let bytes = text_bytes(s) + rest;
    lemma_auto_spec_u64_to_from_le_bytes();
    assert(spec_u64_to_le_bytes(n).len() == 8);
    assert(bytes.subrange(0, 8) =~= spec_u64_to_le_bytes(n));
    assert(bytes.subrange(8, 8 + n as int) =~= body);
    assert(bytes.subrange(8 + n as int, bytes.len() as int) =~= rest);
    encode_utf8_valid_utf8(s);
    encode_utf8_decode_utf8(s);
}

/// Snapshot replay: the snapshot of a page's data reads back as that data.
pub proof fn lemma_snapshot_round_trip(data: PageDataView)
    requires
        fits(data),
    ensures
        read_snapshot(kind_of(data), snapshot_of(data)) == Some(data),
{
    match data {
        PageDataView::Empty => {},
        PageDataView::Account(a) => {
            lemma_read_text(a, Seq::empty());
            assert(text_bytes(a) + Seq::<u8>::empty() =~= text_bytes(a));
        },
        PageDataView::CurrentUser(None) => {},
        PageDataView::CurrentUser(Some(u)) => {
            let bytes = snapshot_of(data);
            assert(bytes.subrange(1, bytes.len() as int) =~= text_bytes(u.id) + text_bytes(u.name));
            lemma_read_text(u.id, text_bytes(u.name));
            lemma_read_text(u.name, Seq::empty());
            assert(text_bytes(u.name) + Seq::<u8>::empty() =~= text_bytes(u.name));
        },
    }
}

fn write_text(out: &mut Vec<u8>, s: &str)
    ensures
        final(out)@ == old(out)@ + text_bytes(s@),
{
    let body = s.as_bytes();
    let mut length = u64_to_le_bytes(body.len() as u64);
    let mut copy = slice_to_vec(body);
    out.append(&mut length);
    out.append(&mut copy);
    assert(out@ =~= old(out)@ + text_bytes(s@));
}

/// Writes the snapshot of `data`.
pub fn get_snapshot(data: &PageData) -> (r: Vec<u8>)
    ensures
        r@ == snapshot_of(data@),
{
    let mut out: Vec<u8> = Vec::new();
    match data {
        PageData::Empty => {},
        PageData::Account(a) => {
            write_text(&mut out, a.as_str());
            assert(out@ =~= text_bytes(a@));
        },
        PageData::CurrentUser(None) => {
            out.push(0);
            assert(out@ =~= seq![0u8]);
        },
        PageData::CurrentUser(Some(u)) => {
            out.push(1);
            write_text(&mut out, u.id.as_str());
            write_text(&mut out, u.name.as_str());
            assert(out@ =~= seq![1u8] + text_bytes(u.id@) + text_bytes(u.name@));
        },
    }
    out
}

/// Reads the text at `bytes[from..]`; gives it with the place behind it.
fn take_text(bytes: &[u8], from: usize) -> (r: Option<(String, usize)>)
    requires
        from <= bytes@.len(),
    ensures
        match r {
            Some((s, next)) => from <= next <= bytes@.len() && read_text(
                bytes@.subrange(from as int, bytes@.len() as int),
            ) == Some((s@, bytes@.subrange(next as int, bytes@.len() as int))),
            None => read_text(bytes@.subrange(from as int, bytes@.len() as int)) is None,
        },
{
    let ghost tail = bytes@.subrange(from as int, bytes@.len() as int);
    let total = bytes.len();
    if total - from < 8 {
        return None;
    }
    let head = slice_subrange(bytes, from, from + 8);
    assert(head@ =~= tail.subrange(0, 8));
    let n = u64_from_le_bytes(head);
    if ((total - from - 8) as u64) < n {
        return None;
    }
    let n = n as usize;
    let body = slice_subrange(bytes, from + 8, from + 8 + n);
    assert(body@ =~= tail.subrange(8, 8 + n as int));
    match string_from_utf8(slice_to_vec(body)) {
        None => None,
        Some(s) => {
            proof {
                encode_utf8_decode_utf8(s@);
                assert(bytes@.subrange(from + 8 + n, bytes@.len() as int) =~= tail.subrange(
                    8 + n as int,
                    tail.len() as int,
                ));
            }
            Some((s, from + 8 + n))
        },
    }
}

/// Reads a snapshot back as data of shape `kind`. Bytes that are no
/// snapshot of such data give nothing.
pub fn read_data(kind: DataKind, bytes: &[u8]) -> (r: Option<PageData>)
    ensures
        match r {
            Some(d) => read_snapshot(kind, bytes@) == Some(d@),
            None => read_snapshot(kind, bytes@) is None,
        },
{
    let total = bytes.len();
    assert(bytes@.subrange(0, total as int) =~= bytes@);
    match kind {
        DataKind::Empty => if total == 0 {
            Some(PageData::Empty)
        } else {
            None
        },
        DataKind::Account => match take_text(bytes, 0) {
            Some((a, next)) => if next == total {
                Some(PageData::Account(a))
            } else {
                None
            },
            None => None,
        },
        DataKind::CurrentUser => {
            if total == 0 {
                return None;
            }
            let tag = bytes[0];
            if tag == 0 {
                if total == 1 {
                    Some(PageData::CurrentUser(None))
                } else {
                    None
                }
            } else if tag == 1 {
                match take_text(bytes, 1) {
                    Some((id, next)) => match take_text(bytes, next) {
                        Some((name, end)) => if end == total {
                            Some(PageData::CurrentUser(Some(LoginUser { id, name })))
                        } else {
                            None
                        },
                        None => None,
                    },
                    None => None,
                }
            } else {
                None
            }
        },
    }
}

} // verus!
