use vstd::prelude::*;

use crate::position::Position;
use crate::text::{buffer_text, pair_value, scalars, until_nul, utf16_scalars, REPLACEMENT};

verus! {

/// The value a Windows `BOOL` holds for "true".
pub const BOOL_TRUE: i32 = 1;

/// Relies on `char::from_u32`: `Some` exactly for Unicode scalar values
/// (up to 0x10FFFF, surrogates excluded), holding that value.
#[verifier::external_body]
fn char_from(v: u32) -> (r: Option<char>)
    ensures
        r is Some <==> (v < 0xD800 || (0xE000 <= v && v <= 0x10FFFF)),
        r matches Some(c) ==> c as u32 == v,
{
    char::from_u32(v)
}

/// Relies on `String::push`: appends one character at the end.
#[verifier::external_body]
fn push_char(s: &mut String, c: char)
    ensures
        final(s)@ == old(s)@.push(c),
{
    s.push(c)
}

/// Appends the character of scalar value `v`, which must be a valid one.
fn push_scalar(out: &mut String, v: u32)
    requires
        v < 0xD800 || (0xE000 <= v && v <= 0x10FFFF),
    ensures
        scalars(final(out)@) == scalars(old(out)@).push(v),
{
    match char_from(v) {
        Some(c) => push_char(out, c),
        None => {},
    }
    assert(scalars(final(out)@) =~= scalars(old(out)@).push(v));
}

fn nul_position(source: &[u16]) -> (n: usize)
    ensures
        n <= source@.len(),
        until_nul(source@) == source@.subrange(0, n as int),
{
    let mut n: usize = 0;
    assert(source@.subrange(0, source@.len() as int) =~= source@);
    assert(source@.subrange(0, 0) + until_nul(source@) =~= until_nul(source@));
    while n < source.len() && source[n] != 0
        invariant
            n <= source@.len(),
            until_nul(source@) == source@.subrange(0, n as int) + until_nul(
                source@.subrange(n as int, source@.len() as int),
            ),
        decreases source@.len() - n,
    {
        let ghost rest = source@.subrange(n as int, source@.len() as int);
        assert(rest.drop_first() =~= source@.subrange(n + 1, source@.len() as int));
        assert(source@.subrange(0, n as int) + seq![source@[n as int]] =~= source@.subrange(
            0,
            n + 1,
        ));
        assert(source@.subrange(0, n as int) + (seq![source@[n as int]] + until_nul(
            rest.drop_first(),
        )) =~= source@.subrange(0, n + 1) + until_nul(rest.drop_first()));
        n = n + 1;
    }
    proof {
        let rest = source@.subrange(n as int, source@.len() as int);
        assert(until_nul(rest) =~= seq![]);
        assert(source@.subrange(0, n as int) + seq![] =~= source@.subrange(0, n as int));
    }
    n
}

/// A point-in-time capture of one top-level window. `hwnd` is the raw value
/// of the window's handle, which is also its identity.
#[derive(Clone, Debug)]
pub struct Window {
    pub hwnd: usize,
    pub title: String,
    pub position: Position,
    pub class_name: String,
    pub visible: bool,
    pub minimized: bool,
    pub can_input: bool,
}

/// What the system answered, at one instant, about one window handle: the
/// count returned by each text query with the buffer it filled, the window
/// rectangle's edges, and the raw `BOOL` of each state query.
#[derive(Clone, Debug)]
pub struct WindowQuery {
    pub hwnd: usize,
    pub title_copied: i32,
    pub title_units: Vec<u16>,
    pub class_copied: i32,
    pub class_units: Vec<u16>,
    pub left: i32,
    pub top: i32,
    pub right: i32,
    pub bottom: i32,
    pub visible: i32,
    pub iconic: i32,
    pub enabled: i32,
}

/// The text a query yields: nothing when it reported no characters copied,
/// otherwise what its buffer holds.
pub open spec fn reply_text(copied: i32, buf: Seq<u16>) -> Seq<u32> {
    if copied > 0 {
        buffer_text(buf)
    } else {
        seq![]
    }
}

impl WindowQuery {
    /// The rectangle's width and height fit in `i32`.
    pub open spec fn extents_fit(&self) -> bool {
        i32::MIN <= self.right - self.left <= i32::MAX && i32::MIN <= self.bottom - self.top
            <= i32::MAX
    }

    /// `w` is the snapshot these answers describe.
    pub open spec fn describes(&self, w: Window) -> bool {
        &&& w.hwnd == self.hwnd
        &&& scalars(w.title@) == reply_text(self.title_copied, self.title_units@)
        &&& scalars(w.class_name@) == reply_text(self.class_copied, self.class_units@)
        &&& w.position.x == self.left
        &&& w.position.y == self.top
        &&& w.position.width == self.right - self.left
        &&& w.position.height == self.bottom - self.top
        &&& w.visible == (self.visible == BOOL_TRUE)
        &&& w.minimized == (self.iconic == BOOL_TRUE)
        &&& w.can_input == (self.enabled == BOOL_TRUE)
    }
}

impl Window {
    pub open spec fn titled(&self) -> bool {
        self.title@.len() > 0
    }

    /// The snapshot that a window's query answers describe.
    pub fn from(query: &WindowQuery) -> (r: Window)
        requires
            query.extents_fit(),
        ensures
            query.describes(r),
    {
        Window {
            hwnd: query.hwnd,
            title: Self::query_text(query.title_copied, query.title_units.as_slice()),
            position: Position::from_bounds(query.left, query.top, query.right, query.bottom),
            class_name: Self::query_text(query.class_copied, query.class_units.as_slice()),
            visible: query.visible == BOOL_TRUE,
            minimized: query.iconic == BOOL_TRUE,
            can_input: query.enabled == BOOL_TRUE,
        }
    }

    /// The text of a query that reported `copied` characters into `buf`; a
    /// failed query (no characters) gives the empty string.
    pub fn query_text(copied: i32, buf: &[u16]) -> (r: String)
        ensures
            scalars(r@) == reply_text(copied, buf@),
    {
        if copied > 0 {
            Self::decode(buf)
        } else {
            let r = String::new();
            assert(scalars(r@) =~= seq![]);
            r
        }
    }

    /// This snapshot moved to `position`, where `moved` is what the request
    /// to move the window answered; unchanged when that request failed.
    pub fn positioned_to(self, position: Position, moved: i32) -> (r: Window)
        ensures
            moved == BOOL_TRUE ==> r == (Window { position, ..self }),
            moved != BOOL_TRUE ==> r == self,
    {
        if moved != BOOL_TRUE {
            return self;
        }
        Window { position, ..self }
    }

    /// The snapshots of an enumeration of top-level windows, one per answer,
    /// in the order given.
    pub fn enumerate(queries: &Vec<WindowQuery>) -> (r: Vec<Window>)
        requires
            forall|i: int| 0 <= i < queries@.len() ==> queries@[i].extents_fit(),
        ensures
            r@.len() == queries@.len(),
            forall|i: int| 0 <= i < queries@.len() ==> queries@[i].describes(#[trigger] r@[i]),
    {
        let mut windows: Vec<Window> = Vec::new();
        let mut i: usize = 0;
        while i < queries.len()
            invariant
                i <= queries@.len(),
                windows@.len() == i,
                forall|k: int| 0 <= k < queries@.len() ==> queries@[k].extents_fit(),
                forall|k: int| 0 <= k < i ==> queries@[k].describes(#[trigger] windows@[k]),
            decreases queries@.len() - i,
        {
            windows.push(Window::from(&queries[i]));
            i = i + 1;
        }
        windows
    }

    /// Decodes a zero-terminated buffer of UTF-16 code units: decoding stops at
    /// the first zero unit, and each unpaired surrogate becomes U+FFFD.
    pub fn decode(source: &[u16]) -> (r: String)
        ensures
            scalars(r@) == buffer_text(source@),
    {
        let n = nul_position(source);
        let ghost t = source@.subrange(0, n as int);
        let mut out = String::new();
        let mut i: usize = 0;
        assert(t.subrange(0, n as int) =~= t);
        assert(scalars(out@) + utf16_scalars(t) =~= utf16_scalars(t));
        while i < n
            invariant
                i <= n <= source@.len(),
                t == source@.subrange(0, n as int),
                utf16_scalars(t) == scalars(out@) + utf16_scalars(t.subrange(i as int, n as int)),
            decreases n - i,
        {
            let ghost r = t.subrange(i as int, n as int);
            let ghost before = scalars(out@);
            let u = source[i];
            assert(r[0] == u);
            if u < 0xD800 || u >= 0xE000 {
                push_scalar(&mut out, u as u32);
                assert(r.drop_first() =~= t.subrange(i + 1, n as int));
                i = i + 1;
            } else if u < 0xDC00 && i + 1 < n && source[i + 1] >= 0xDC00 && source[i + 1] < 0xE000 {
                let lo = source[i + 1];
                assert(r[1] == lo);
                let v: u32 = 0x10000 + ((u - 0xD800) as u32) * 0x400 + ((lo - 0xDC00) as u32);
                assert(v == pair_value(u, lo));
                push_scalar(&mut out, v);
                assert(r.subrange(2, r.len() as int) =~= t.subrange(i + 2, n as int));
                i = i + 2;
            } else {
                push_scalar(&mut out, REPLACEMENT);
                assert(r.drop_first() =~= t.subrange(i + 1, n as int));
                i = i + 1;
            }
            assert(before + utf16_scalars(r) =~= scalars(out@) + utf16_scalars(
                t.subrange(i as int, n as int),
            ));
        }
        assert(t.subrange(n as int, n as int) =~= seq![]);
        assert(scalars(out@) + seq![] =~= scalars(out@));
        out
    }
}

} // verus!
