//! Texts of the operating system, which need not be Unicode.

use vstd::prelude::*;
use vstd::string::*;
use vstd::utf8::encode_utf8;

use crate::paths::Syntax;

verus! {

/// A text of the operating system: the name of an entry, or a whole path.
#[derive(Debug, PartialEq, Eq)]
pub struct OsText {
    /// How the text is shown: what is not Unicode comes as replacement characters.
    pub shown: String,
    /// The text itself, in the encoding that extends UTF-8 to all texts of the system.
    pub bytes: Vec<u8>,
}

/// The value of an [`OsText`].
pub struct OsTextView {
    pub shown: Seq<char>,
    pub bytes: Seq<u8>,
}

impl View for OsText {
    type V = OsTextView;

    open spec fn view(&self) -> OsTextView {
        OsTextView { shown: self.shown@, bytes: self.bytes@ }
    }
}

/// The values of a list of texts of the system.
pub open spec fn os_texts(list: Seq<OsText>) -> Seq<OsTextView> {
    Seq::new(list.len(), |i: int| list[i]@)
}

/// Whether a text is Unicode: it is then exactly what is shown.
pub open spec fn decodable(text: OsTextView) -> bool {
    text.bytes == encode_utf8(text.shown)
}

/// Whether `b` is a character that separates components under `syntax`.
pub open spec fn separator_byte(syntax: Syntax, b: u8) -> bool {
    match syntax {
        Syntax::Slash => b == 0x2f,
        Syntax::Both => b == 0x2f || b == 0x5c,
        Syntax::Verbatim => b == 0x5c,
    }
}

/// `bytes` cut at every separator.
pub open spec fn byte_pieces(syntax: Syntax, bytes: Seq<u8>) -> Seq<Seq<u8>>
    decreases bytes.len(),
{
    if bytes.len() == 0 {
        seq![Seq::<u8>::empty()]
    } else {
        let before = byte_pieces(syntax, bytes.drop_last());
        if separator_byte(syntax, bytes.last()) {
            before.push(Seq::<u8>::empty())
        } else {
            before.drop_last().push(before.last().push(bytes.last()))
        }
    }
}

/// Whether a piece contributes nothing to a path: it is empty, or a `.` that the syntax drops.
pub open spec fn void_piece(syntax: Syntax, piece: Seq<u8>) -> bool {
    piece.len() == 0 || (syntax != Syntax::Verbatim && piece == seq![0x2eu8])
}

/// The pieces that contribute a component, in order.
pub open spec fn naming_pieces(syntax: Syntax, list: Seq<Seq<u8>>) -> Seq<Seq<u8>>
    decreases list.len(),
{
    if list.len() == 0 {
        seq![]
    } else {
        let before = naming_pieces(syntax, list.drop_last());
        if void_piece(syntax, list.last()) {
            before
        } else {
            before.push(list.last())
        }
    }
}

/// The values of a list of byte strings.
pub open spec fn byte_views(list: Seq<Vec<u8>>) -> Seq<Seq<u8>> {
    Seq::new(list.len(), |i: int| list[i]@)
}

/// The bytes `from..to`.
pub fn bytes_between(bytes: &Vec<u8>, from: usize, to: usize) -> (r: Vec<u8>)
    requires
        from <= to <= bytes@.len(),
    ensures
        r@ == bytes@.subrange(from as int, to as int),
{
    let mut r: Vec<u8> = Vec::new();
    for i in from..to
        invariant
            from <= to <= bytes@.len(),
            r@ == bytes@.subrange(from as int, i as int),
    {
        r.push(bytes[i]);
    }
    r
}

/// Whether `bytes` begins with `head`.
pub open spec fn bytes_begin_with(bytes: Seq<u8>, head: Seq<u8>) -> bool {
    head.len() <= bytes.len() && bytes.take(head.len() as int) == head
}

/// `bytes` without `head` in front, if that is what it begins with.
pub open spec fn bytes_behind(bytes: Seq<u8>, head: Seq<u8>) -> Seq<u8> {
    if bytes_begin_with(bytes, head) {
        bytes.skip(head.len() as int)
    } else {
        bytes
    }
}

/// `bytes` without `head` in front, if that is what it begins with.
pub fn without_head(bytes: &Vec<u8>, head: &Vec<u8>) -> (r: Vec<u8>)
    ensures
        r@ == bytes_behind(bytes@, head@),
{
    if head.len() <= bytes.len() {
        let front = bytes_between(bytes, 0, head.len());
        assert(front@ =~= bytes@.take(head@.len() as int));
        if same_bytes(&front, head) {
            let r = bytes_between(bytes, head.len(), bytes.len());
            assert(r@ =~= bytes@.skip(head@.len() as int));
            return r;
        }
    }
    let r = bytes_between(bytes, 0, bytes.len());
    assert(r@ =~= bytes@);
    r
}

/// Whether two byte strings are the same.
pub fn same_bytes(a: &Vec<u8>, b: &Vec<u8>) -> (r: bool)
    ensures
        r == (a@ == b@),
{
    if a.len() != b.len() {
        return false;
    }
    for i in 0..a.len()
        invariant
            a@.len() == b@.len(),
            forall|j: int| 0 <= j < i ==> a@[j] == b@[j],
    {
        if a[i] != b[i] {
            return false;
        }
    }
    assert(a@ =~= b@);
    true
}

fn push_naming(
    list: &mut Vec<Vec<u8>>,
    syntax: Syntax,
    bytes: &Vec<u8>,
    from: usize,
    to: usize,
)
    requires
        from <= to <= bytes@.len(),
    ensures
        ({
            let piece = bytes@.subrange(from as int, to as int);
            byte_views(final(list)@) == (if void_piece(syntax, piece) {
                byte_views(old(list)@)
            } else {
                byte_views(old(list)@).push(piece)
            })
        }),
{
    let ghost piece = bytes@.subrange(from as int, to as int);
    let dot = to - from == 1 && bytes[from] == 0x2e;
    proof {
        if dot {
            assert(piece =~= seq![0x2eu8]);
        }
        if piece == seq![0x2eu8] {
            assert(piece.len() == 1 && piece[0] == 0x2e);
            assert(dot);
        }
    }
    assert(byte_views(list@) =~= byte_views(old(list)@));
    if from < to && (!dot || syntax == Syntax::Verbatim) {
        let naming = bytes_between(bytes, from, to);
        list.push(naming);
        assert(byte_views(list@) =~= byte_views(old(list)@).push(piece));
    }
}

fn is_separator_byte(syntax: Syntax, b: u8) -> (r: bool)
    ensures
        r == separator_byte(syntax, b),
{
    match syntax {
        Syntax::Slash => b == 0x2f,
        Syntax::Both => b == 0x2f || b == 0x5c,
        Syntax::Verbatim => b == 0x5c,
    }
}

/// The pieces of a path that contribute a component, as they are encoded.
pub fn naming_bytes(bytes: &Vec<u8>, syntax: Syntax) -> (r: Vec<Vec<u8>>)
    ensures
        byte_views(r@) == naming_pieces(syntax, byte_pieces(syntax, bytes@)),
{
    let mut list: Vec<Vec<u8>> = Vec::new();
    let ghost mut cut: Seq<Seq<u8>> = seq![Seq::<u8>::empty()];
    let mut from: usize = 0;
    let mut i: usize = 0;
    proof {
        assert(bytes@.subrange(0, 0) =~= Seq::<u8>::empty());
        assert(cut.drop_last() =~= Seq::<Seq<u8>>::empty());
        assert(byte_views(list@) =~= naming_pieces(syntax, cut.drop_last()));
    }
    while i < bytes.len()
        invariant
            from <= i <= bytes@.len(),
            cut.len() > 0,
            cut == byte_pieces(syntax, bytes@.subrange(0, i as int)),
            cut.last() == bytes@.subrange(from as int, i as int),
            byte_views(list@) == naming_pieces(syntax, cut.drop_last()),
        decreases bytes@.len() - i,
    {
        let ghost next = bytes@.subrange(0, i + 1);
        assert(next.drop_last() =~= bytes@.subrange(0, i as int));
        if is_separator_byte(syntax, bytes[i]) {
            push_naming(&mut list, syntax, bytes, from, i);
            proof {
                let grown = cut.push(Seq::<u8>::empty());
                assert(grown.drop_last() =~= cut);
                assert(bytes@.subrange(i + 1, i + 1) =~= Seq::<u8>::empty());
                cut = grown;
            }
            from = i + 1;
        } else {
            proof {
                let grown = cut.drop_last().push(cut.last().push(bytes@[i as int]));
                assert(grown.drop_last() =~= cut.drop_last());
                assert(bytes@.subrange(from as int, i + 1) =~= bytes@.subrange(
                    from as int,
                    i as int,
                ).push(bytes@[i as int]));
                cut = grown;
            }
        }
        i = i + 1;
    }
    push_naming(&mut list, syntax, bytes, from, i);
    assert(bytes@.subrange(0, i as int) =~= bytes@);
    list
}

impl OsText {
    /// A text that is Unicode.
    pub fn new(text: &str) -> (r: OsText)
        ensures
            r@ == (OsTextView { shown: text@, bytes: encode_utf8(text@) }),
    {
        OsText { shown: text.to_owned(), bytes: text.as_bytes_vec() }
    }

    /// Whether the text is Unicode.
    pub fn is_decodable(&self) -> (r: bool)
        ensures
            r == decodable(self@),
    {
        same_bytes(&self.bytes, &self.shown.as_str().as_bytes_vec())
    }
}

impl Clone for OsText {
    fn clone(&self) -> (r: Self)
        ensures
            r@ == self@,
    {
        let bytes = bytes_between(&self.bytes, 0, self.bytes.len());
        assert(bytes@ =~= self.bytes@);
        OsText { shown: self.shown.clone(), bytes }
    }
}

} // verus!
