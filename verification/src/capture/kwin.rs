//! KWin's screenshot service: its replies, its windows and their order.

use vstd::prelude::*;

use crate::capture::frame;
use crate::capture::frame::{image_from_rows, ByteOrder, RgbaImage};
use crate::order;
use crate::text;

verus! {

// ---- replies -----------------------------------------------------------------------------

/// A number in a reply. Sides come unsigned and the format signed.
#[derive(Clone, Copy, PartialEq, Eq, Structural, Debug)]
pub enum BusValue {
    U32(u32),
    I32(i32),
    Other,
}

/// What a reply says of the picture that was written to the pipe.
#[derive(Clone, Copy, PartialEq, Eq, Structural, Debug)]
pub struct ScreenshotReply {
    pub width: Option<BusValue>,
    pub height: Option<BusValue>,
    pub stride: Option<BusValue>,
    pub format: Option<BusValue>,
}

/// The fields of a reply.
#[derive(Clone, Copy, PartialEq, Eq, Structural, Debug)]
pub enum ReplyField {
    Width,
    Height,
    Stride,
}

/// Why a screenshot cannot be used.
#[derive(Clone, Copy, PartialEq, Eq, Structural, Debug)]
pub enum KwinError {
    ZeroSized,
    Missing(ReplyField),
    NotAnInteger(ReplyField),
    ShortRead { got: usize, expected: u64 },
    ShortStride { stride: u32, width: u32 },
    UnsupportedFormat(u32),
    NoStackingOrder,
    ScriptRefused,
}

impl ReplyField {
    pub open spec fn spec_name(self) -> Seq<char> {
        match self {
            ReplyField::Width => "width"@,
            ReplyField::Height => "height"@,
            ReplyField::Stride => "stride"@,
        }
    }

    /// The field as the reply names it.
    pub fn name(&self) -> (s: &'static str)
        ensures
            s@ == self.spec_name(),
    {
        match self {
            ReplyField::Width => "width",
            ReplyField::Height => "height",
            ReplyField::Stride => "stride",
        }
    }
}

impl KwinError {
    pub open spec fn spec_message(self) -> Seq<char> {
        match self {
            KwinError::ZeroSized => "refusing to capture a zero-sized area"@,
            KwinError::Missing(f) => "ScreenShot2 result missing '"@ + f.spec_name() + "'"@,
            KwinError::NotAnInteger(f) => "ScreenShot2 result '"@ + f.spec_name()
                + "' is not an integer"@,
            KwinError::ShortRead { got, expected } => "ScreenShot2 short read: got "@ + text::dec(
                got as nat,
            ) + " bytes, expected "@ + text::dec(expected as nat),
            KwinError::ShortStride { stride, width } => "ScreenShot2 stride "@ + text::dec(
                stride as nat,
            ) + " is too short for "@ + text::dec(width as nat) + " pixels"@,
            KwinError::UnsupportedFormat(f) => "unsupported ScreenShot2 QImage format "@
                + text::dec(f as nat),
            KwinError::NoStackingOrder => "compositor sent no stacking order"@,
            KwinError::ScriptRefused => "kwin refused the capture-exclusion script"@,
        }
    }

    /// The error in words.
    pub fn message(&self) -> (s: String)
        ensures
            s@ == self.spec_message(),
    {
        match self {
            KwinError::ZeroSized => "refusing to capture a zero-sized area".to_owned(),
            KwinError::Missing(f) => {
                let mut s = "ScreenShot2 result missing '".to_owned();
                s.append(f.name());
                s.append("'");
                s
            },
            KwinError::NotAnInteger(f) => {
                let mut s = "ScreenShot2 result '".to_owned();
                s.append(f.name());
                s.append("' is not an integer");
                s
            },
            KwinError::ShortRead { got, expected } => {
                let mut s = "ScreenShot2 short read: got ".to_owned();
                text::push_dec(&mut s, *got as u64);
                s.append(" bytes, expected ");
                text::push_dec(&mut s, *expected);
                s
            },
            KwinError::ShortStride { stride, width } => {
                let mut s = "ScreenShot2 stride ".to_owned();
                text::push_dec(&mut s, *stride as u64);
                s.append(" is too short for ");
                text::push_dec(&mut s, *width as u64);
                s.append(" pixels");
                s
            },
            KwinError::UnsupportedFormat(f) => {
                let mut s = "unsupported ScreenShot2 QImage format ".to_owned();
                text::push_dec(&mut s, *f as u64);
                s
            },
            KwinError::NoStackingOrder => "compositor sent no stacking order".to_owned(),
            KwinError::ScriptRefused => "kwin refused the capture-exclusion script".to_owned(),
        }
    }
}

/// The number that a value stands for.
pub open spec fn number_of(v: BusValue) -> Option<u32> {
    match v {
        BusValue::U32(n) => Some(n),
        BusValue::I32(n) => Some(n as u32),
        BusValue::Other => None,
    }
}

/// The number in a field of a reply.
pub open spec fn field_number(v: Option<BusValue>, field: ReplyField) -> Result<u32, KwinError> {
    match v {
        None => Err(KwinError::Missing(field)),
        Some(b) => match number_of(b) {
            Some(n) => Ok(n),
            None => Err(KwinError::NotAnInteger(field)),
        },
    }
}

fn result_u32(v: Option<BusValue>, field: ReplyField) -> (r: Result<u32, KwinError>)
    ensures
        r == field_number(v, field),
{
    match v {
        None => Err(KwinError::Missing(field)),
        Some(BusValue::U32(n)) => Ok(n),
        Some(BusValue::I32(n)) => Ok(n as u32),
        Some(BusValue::Other) => Err(KwinError::NotAnInteger(field)),
    }
}

/// The order of the bytes of an image format: the RGB32 family is BGRA in
/// memory, the RGBA8888 family is what it says.
pub open spec fn order_of(format: u32) -> Option<ByteOrder> {
    if 4 <= format <= 6 {
        Some(ByteOrder::Bgra)
    } else if format == 17 || format == 18 {
        Some(ByteOrder::Rgba)
    } else {
        None
    }
}

/// A row of `w` pixels does not fit the stride. A row too long for any stride
/// counts as the longest stride there is.
pub open spec fn stride_short(w: u32, stride: u32) -> bool {
    stride < w * 4 && stride < u32::MAX
}

/// The opaque frame in a buffer of rows that begin `stride` bytes apart.
pub fn decode(buf: &[u8], w: u32, h: u32, stride: u32, format: u32) -> (r: Result<
    RgbaImage,
    KwinError,
>)
    requires
        !stride_short(w, stride) && order_of(format) is Some ==> frame::rows_fit(
            buf@.len(),
            w,
            h,
            stride as usize,
        ),
    ensures
        stride_short(w, stride) ==> r == Err::<RgbaImage, KwinError>(
            KwinError::ShortStride { stride, width: w },
        ),
        !stride_short(w, stride) ==> match order_of(format) {
            None => r == Err::<RgbaImage, KwinError>(KwinError::UnsupportedFormat(format)),
            Some(o) => r matches Ok(img) && frame::shows_rows(
                img,
                buf@,
                w,
                h,
                stride as usize,
                o,
                true,
            ),
        },
{
    if (stride as u64) < w as u64 * 4 && stride < u32::MAX {
        return Err(KwinError::ShortStride { stride, width: w });
    }
    let o = match format {
        4 => ByteOrder::Bgra,
        5 => ByteOrder::Bgra,
        6 => ByteOrder::Bgra,
        17 => ByteOrder::Rgba,
        18 => ByteOrder::Rgba,
        _ => return Err(KwinError::UnsupportedFormat(format)),
    };
    Ok(image_from_rows(buf, w, h, stride as usize, o, true))
}

/// The picture of a screenshot reply: every number of the reply is there, the
/// pipe brought all its rows, and the rows can be read. A reply that names no
/// format is ARGB32.
pub open spec fn reply_error(reply: ScreenshotReply, got: int) -> Option<KwinError> {
    let w = field_number(reply.width, ReplyField::Width);
    let h = field_number(reply.height, ReplyField::Height);
    let s = field_number(reply.stride, ReplyField::Stride);
    if w is Err {
        Some(w->Err_0)
    } else if h is Err {
        Some(h->Err_0)
    } else if s is Err {
        Some(s->Err_0)
    } else if got < s->Ok_0 * h->Ok_0 {
        Some(
            KwinError::ShortRead { got: got as usize, expected: (s->Ok_0 * h->Ok_0) as u64 },
        )
    } else if stride_short(w->Ok_0, s->Ok_0) {
        Some(KwinError::ShortStride { stride: s->Ok_0, width: w->Ok_0 })
    } else if order_of(reply_format(reply)) is None {
        Some(KwinError::UnsupportedFormat(reply_format(reply)))
    } else {
        None
    }
}

/// The image format of a reply.
pub open spec fn reply_format(reply: ScreenshotReply) -> u32 {
    match reply.format {
        Some(b) => match number_of(b) {
            Some(n) => n,
            None => 5,
        },
        None => 5,
    }
}

/// A row of the picture is longer than the stride, though that is the longest
/// there is.
pub open spec fn rows_overlap(reply: ScreenshotReply) -> bool {
    field_number(reply.width, ReplyField::Width)->Ok_0 * 4 > field_number(
        reply.stride,
        ReplyField::Stride,
    )->Ok_0
}

/// Reads the picture of a screenshot reply. Where its rows overlap, the buffer
/// holds them all.
pub fn decode_reply(reply: &ScreenshotReply, buf: &[u8]) -> (r: Result<RgbaImage, KwinError>)
    requires
        reply_error(*reply, buf@.len() as int) is None && rows_overlap(*reply) ==> frame::rows_fit(
            buf@.len(),
            field_number(reply.width, ReplyField::Width)->Ok_0,
            field_number(reply.height, ReplyField::Height)->Ok_0,
            field_number(reply.stride, ReplyField::Stride)->Ok_0 as usize,
        ),
    ensures
        match reply_error(*reply, buf@.len() as int) {
            Some(e) => r == Err::<RgbaImage, KwinError>(e),
            None => r matches Ok(img) && frame::shows_rows(
                img,
                buf@,
                field_number(reply.width, ReplyField::Width)->Ok_0,
                field_number(reply.height, ReplyField::Height)->Ok_0,
                field_number(reply.stride, ReplyField::Stride)->Ok_0 as usize,
                order_of(reply_format(*reply))->0,
                true,
            ),
        },
{
    let w: u32 = match result_u32(reply.width, ReplyField::Width) {
        Ok(n) => n,
        Err(e) => return Err(e),
    };
    let h: u32 = match result_u32(reply.height, ReplyField::Height) {
        Ok(n) => n,
        Err(e) => return Err(e),
    };
    let stride: u32 = match result_u32(reply.stride, ReplyField::Stride) {
        Ok(n) => n,
        Err(e) => return Err(e),
    };
    let format: u32 = match reply.format {
        Some(BusValue::U32(n)) => n,
        Some(BusValue::I32(n)) => n as u32,
        _ => 5,
    };
    let needed: u64 = frame::area(stride, h);
    if (buf.len() as u64) < needed {
        return Err(KwinError::ShortRead { got: buf.len(), expected: needed });
    }
    let len: usize = buf.len();
    proof {
        if w * 4 <= stride {
            if h > 0 {
                assert((h - 1) * stride + stride == stride * h) by (nonlinear_arith);
            }
            frame::lemma_rows_fit(len as nat, w, h, stride as usize);
        }
    }
    decode(buf, w, h, stride, format)
}

/// Whether an area is worth asking for.
pub fn check_area(width: u32, height: u32) -> (r: Result<(), KwinError>)
    ensures
        r == (if width == 0 || height == 0 {
            Err::<(), KwinError>(KwinError::ZeroSized)
        } else {
            Ok::<(), KwinError>(())
        }),
{
    if width == 0 || height == 0 {
        return Err(KwinError::ZeroSized);
    }
    Ok(())
}

// ---- windows ------------------------------------------------------------------------------

/// A window that can be picked.
#[derive(Debug)]
pub struct KwinWindow {
    pub handle: String,
    pub x: i32,
    pub y: i32,
    pub width: u32,
    pub height: u32,
}

/// What the compositor says of a window. The geometry is there where all of
/// it was said; `tiny` says that a side is at most five pixels long.
#[derive(Debug)]
pub struct WindowEntry {
    pub handle: String,
    pub pid: Option<i32>,
    pub minimized: bool,
    pub skip_switcher: bool,
    pub skip_taskbar: bool,
    pub exclude_from_capture: bool,
    pub geometry: Option<WindowGeometry>,
    pub layer: Option<i32>,
}

/// Where a window is, in whole pixels.
#[derive(Clone, Copy, PartialEq, Eq, Structural, Debug)]
pub struct WindowGeometry {
    pub x: i32,
    pub y: i32,
    pub width: u32,
    pub height: u32,
    pub tiny: bool,
}

/// The handle in a match: what stands behind the first underscore, or all of
/// it where there is none.
pub open spec fn handle_of(id: Seq<char>) -> Seq<char> {
    let i = text::find(id, '_');
    if 0 <= i < id.len() {
        id.skip(i + 1)
    } else {
        id
    }
}

/// The handle in a match.
pub fn match_handle(id: &str) -> (r: String)
    ensures
        r@ == handle_of(id@),
{
    let a = text::chars_of(id);
    for i in 0..a.len()
        invariant
            a@ == id@,
            forall|k: int| 0 <= k < i ==> a@[k] != '_',
    {
        if a[i] == '_' {
            proof {
                text::lemma_find_is(id@, '_', i as int);
            }
            let r = text::part_of(&a, i + 1, a.len());
            assert(r@ =~= id@.skip(i + 1));
            return r;
        }
    }
    proof {
        text::lemma_find_is(id@, '_', id@.len() as int);
    }
    text::string_of(&a)
}

/// The handles in the matches, each once, in the order of the matches.
pub fn match_handles(ids: &[String]) -> (r: Vec<String>)
    ensures
        text::texts(r@) == text::distinct(text::texts(ids@).map_values(|t: Seq<char>| handle_of(t))),
{
    let mut out: Vec<String> = Vec::new();
    let ghost handles = text::texts(ids@).map_values(|t: Seq<char>| handle_of(t));
    assert(text::texts(out@) =~= text::distinct(handles.take(0)));
    for i in 0..ids.len()
        invariant
            handles == text::texts(ids@).map_values(|t: Seq<char>| handle_of(t)),
            text::texts(out@) == text::distinct(handles.take(i as int)),
    {
        let h = match_handle(ids[i].as_str());
        assert(handles.take(i + 1).drop_last() =~= handles.take(i as int));
        assert(handles.take(i + 1).last() == h@);
        text::push_distinct(&mut out, h);
    }
    assert(handles.take(ids@.len() as int) =~= handles);
    out
}

/// The window can be picked: it belongs to another program, is on screen and
/// wants to be seen.
pub open spec fn keeps(e: WindowEntry, own_pid: i32) -> bool {
    &&& e.pid != Some(own_pid)
    &&& !e.minimized
    &&& !e.skip_switcher
    &&& !e.skip_taskbar
    &&& !e.exclude_from_capture
    &&& e.geometry matches Some(g) && !g.tiny
}

fn is_kept(e: &WindowEntry, own_pid: i32) -> (r: bool)
    ensures
        r == keeps(*e, own_pid),
{
    let own = match e.pid {
        Some(p) => p == own_pid,
        None => false,
    };
    if own || e.minimized || e.skip_switcher || e.skip_taskbar || e.exclude_from_capture {
        return false;
    }
    match e.geometry {
        Some(g) => !g.tiny,
        None => false,
    }
}

/// The places of the windows that can be picked.
pub open spec fn kept_places(entries: Seq<WindowEntry>, own_pid: i32) -> Seq<int>
    decreases entries.len(),
{
    if entries.len() == 0 {
        Seq::empty()
    } else {
        let r = kept_places(entries.drop_last(), own_pid);
        if keeps(entries.last(), own_pid) {
            r.push(entries.len() - 1)
        } else {
            r
        }
    }
}

/// How high a window is stacked: one more than the last place at which the
/// order names it, counted from the bottom, and nothing where it does not.
pub open spec fn height_of(order: Seq<Seq<char>>, handle: Seq<char>) -> nat
    decreases order.len(),
{
    if order.len() == 0 {
        0
    } else if order.last() == handle {
        order.len()
    } else {
        height_of(order.drop_last(), handle)
    }
}

fn stack_height(order: &[String], handle: &str) -> (r: u64)
    ensures
        r == height_of(text::texts(order@), handle@),
{
    let mut i: usize = order.len();
    assert(text::texts(order@).take(i as int) =~= text::texts(order@));
    while i > 0
        invariant
            i <= order@.len(),
            height_of(text::texts(order@), handle@) == height_of(
                text::texts(order@).take(i as int),
                handle@,
            ),
        decreases i,
    {
        let ghost top = text::texts(order@).take(i as int);
        assert(top.last() == order@[i - 1]@);
        assert(top.drop_last() =~= text::texts(order@).take(i - 1));
        if text::same(order[i - 1].as_str(), handle) {
            return i as u64;
        }
        i = i - 1;
    }
    0
}

/// The key by which a window is sorted: its height in the stacking order where
/// that names any of the windows, and its layer otherwise.
pub open spec fn window_key(e: WindowEntry, order: Option<Seq<Seq<char>>>, stacked: bool) -> u64 {
    if stacked {
        height_of(order->0, e.handle@) as u64
    } else {
        ((match e.layer {
            Some(l) => l as int,
            None => 0,
        }) + 2_147_483_648) as u64
    }
}

/// The stacking order names one of the windows at the places.
pub open spec fn names_any(
    entries: Seq<WindowEntry>,
    places: Seq<int>,
    order: Option<Seq<Seq<char>>>,
) -> bool {
    order matches Some(o) && exists|i: int|
        0 <= i < places.len() && height_of(o, entries[#[trigger] places[i]].handle@) > 0
}

/// The keys of the windows at the places.
pub open spec fn window_keys(
    entries: Seq<WindowEntry>,
    places: Seq<int>,
    order: Option<Seq<Seq<char>>>,
) -> Seq<u64> {
    places.map_values(
        |p: int| window_key(entries[p], order, names_any(entries, places, order)),
    )
}

/// `w` is the window of the entry.
pub open spec fn shows_window(w: KwinWindow, e: WindowEntry) -> bool {
    &&& e.geometry matches Some(g) && w.x == g.x && w.y == g.y && w.width == g.width && w.height
        == g.height
    &&& w.handle@ == e.handle@
}

/// The texts of an optional list.
pub open spec fn order_texts(order: Option<&[String]>) -> Option<Seq<Seq<char>>> {
    match order {
        Some(o) => Some(text::texts(o@)),
        None => None,
    }
}

/// The windows that can be picked, the topmost first. Windows of which the
/// stacking order says nothing come last; where it names none of them, or
/// could not be had, the layers decide.
pub fn pickable_windows(entries: &[WindowEntry], own_pid: i32, order: Option<&[String]>) -> (r: Vec<
    KwinWindow,
>)
    ensures
        ({
            let places = kept_places(entries@, own_pid);
            &&& r@.len() == places.len()
            &&& exists|perm: Seq<usize>| #[trigger]
                order::is_newest_first(
                    window_keys(entries@, places, order_texts(order)),
                    perm,
                ) && forall|i: int|
                    0 <= i < r@.len() ==> shows_window(
                        #[trigger] r@[i],
                        entries@[places[perm[i] as int]],
                    )
        }),
{
    let mut kept: Vec<usize> = Vec::new();
    let ghost places = kept_places(entries@, own_pid);
    assert(entries@.take(0) =~= Seq::<WindowEntry>::empty());
    for i in 0..entries.len()
        invariant
            kept@.map_values(|p: usize| p as int) == kept_places(
                entries@.take(i as int),
                own_pid,
            ),
            forall|k: int| 0 <= k < kept@.len() ==> (#[trigger] kept@[k]) < i && keeps(
                entries@[kept@[k] as int],
                own_pid,
            ),
    {
        assert(entries@.take(i + 1).drop_last() =~= entries@.take(i as int));
        let ghost before = kept@;
        if is_kept(&entries[i], own_pid) {
            kept.push(i);
            assert(kept@.map_values(|p: usize| p as int) =~= before.map_values(
                |p: usize| p as int,
            ).push(i as int));
        }
    }
    assert(entries@.take(entries@.len() as int) =~= entries@);
    let ghost o = order_texts(order);
    let mut stacked = false;
    if let Some(list) = order {
        for i in 0..kept.len()
            invariant
                o == Some(text::texts(list@)),
                places == kept@.map_values(|p: usize| p as int),
                forall|k: int| 0 <= k < kept@.len() ==> (#[trigger] kept@[k]) < entries@.len(),
                stacked == exists|k: int|
                    0 <= k < i && height_of(
                        o->0,
                        entries@[#[trigger] places[k]].handle@,
                    ) > 0,
        {
            assert(places[i as int] == kept@[i as int]);
            if stack_height(list, entries[kept[i]].handle.as_str()) > 0 {
                stacked = true;
            }
        }
    }
    assert(stacked == names_any(entries@, places, o));
    let mut keys: Vec<u64> = Vec::new();
    for i in 0..kept.len()
        invariant
            o == order_texts(order),
            stacked ==> order is Some,
            stacked == names_any(entries@, places, o),
            places == kept@.map_values(|p: usize| p as int),
            forall|k: int| 0 <= k < kept@.len() ==> (#[trigger] kept@[k]) < entries@.len(),
            keys@ == window_keys(entries@, places, o).take(i as int),
    {
        let e = &entries[kept[i]];
        let layer: i64 = match e.layer {
            Some(l) => l as i64 + 2_147_483_648,
            None => 2_147_483_648,
        };
        let key: u64 = match order {
            Some(list) => if stacked { stack_height(list, e.handle.as_str()) } else { layer as u64 },
            None => layer as u64,
        };
        assert(places[i as int] == kept@[i as int]);
        assert(key == window_key(*e, o, stacked));
        keys.push(key);
        assert(keys@ =~= window_keys(entries@, places, o).take(i + 1));
    }
    assert(keys@ =~= window_keys(entries@, places, o));
    let perm = order::newest_first(keys.as_slice());
    let mut out: Vec<KwinWindow> = Vec::new();
    for i in 0..perm.len()
        invariant
            order::lists_all(perm@, kept@.len() as int),
            places == kept@.map_values(|p: usize| p as int),
            forall|k: int| 0 <= k < kept@.len() ==> (#[trigger] kept@[k]) < entries@.len()
                && keeps(entries@[kept@[k] as int], own_pid),
            out@.len() == i,
            forall|k: int|
                0 <= k < i ==> shows_window(#[trigger] out@[k], entries@[places[perm@[k] as int]]),
    {
        let e = &entries[kept[perm[i]]];
        assert(keeps(*e, own_pid));
        if let Some(g) = e.geometry {
            out.push(
                KwinWindow {
                    handle: e.handle.clone(),
                    x: g.x,
                    y: g.y,
                    width: g.width,
                    height: g.height,
                },
            );
        }
    }
    assert(order::is_newest_first(window_keys(entries@, places, o), perm@));
    out
}

/// The places of the windows that belong to this process and have exactly the
/// title, in their order.
pub fn own_windows(windows: &[(Option<u32>, Option<String>)], own_pid: u32, title: &str) -> (r: Vec<
    usize,
>)
    ensures
        forall|i: int|
            0 <= i < windows@.len() ==> (r@.contains(i as usize) <==> #[trigger] windows@[i].0
                == Some(own_pid) && windows@[i].1 is Some && windows@[i].1->0@ == title@),
        forall|i: int| 0 <= i < r@.len() ==> (#[trigger] r@[i]) < windows@.len(),
        forall|i: int, j: int| 0 <= i < j < r@.len() ==> #[trigger] r@[i] < #[trigger] r@[j],
{
    let mut out: Vec<usize> = Vec::new();
    for i in 0..windows.len()
        invariant
            forall|k: int|
                0 <= k < i ==> (out@.contains(k as usize) <==> #[trigger] windows@[k].0 == Some(
                    own_pid,
                ) && windows@[k].1 is Some && windows@[k].1->0@ == title@),
            forall|k: int| 0 <= k < out@.len() ==> (#[trigger] out@[k]) < i,
            forall|j: int, k: int|
                0 <= j < k < out@.len() ==> #[trigger] out@[j] < #[trigger] out@[k],
    {
        let own = match windows[i].0 {
            Some(p) => p == own_pid,
            None => false,
        };
        let named = match &windows[i].1 {
            Some(t) => text::same(t.as_str(), title),
            None => false,
        };
        let ghost before = out@;
        if own && named {
            out.push(i);
            assert(out@[before.len() as int] == i);
        }
        proof {
            assert forall|k: int| 0 <= k < i + 1 implies (out@.contains(k as usize)
                <==> #[trigger] windows@[k].0 == Some(own_pid) && windows@[k].1 is Some
                && windows@[k].1->0@ == title@) by {
                if k < i {
                    if before.contains(k as usize) {
                        let j = choose|j: int| 0 <= j < before.len() && before[j] == k as usize;
                        assert(out@[j] == k as usize);
                    }
                    if out@.contains(k as usize) {
                        let j = choose|j: int| 0 <= j < out@.len() && out@[j] == k as usize;
                        if j < before.len() {
                            assert(before[j] == k as usize);
                        }
                    }
                } else if out@.contains(i) {
                    let j = choose|j: int| 0 <= j < out@.len() && out@[j] == i;
                    if j < before.len() {
                        assert(before[j] < i);
                    }
                }
            }
        }
    }
    out
}

/// The stacking order in the compositor's announcement: the identifiers
/// between semicolons, from the bottom to the top, without empty ones.
pub open spec fn stacked_ids(s: Seq<Seq<char>>) -> Seq<Seq<char>>
    decreases s.len(),
{
    if s.len() == 0 {
        s
    } else if s.last().len() == 0 {
        stacked_ids(s.drop_last())
    } else {
        stacked_ids(s.drop_last()).push(s.last())
    }
}

/// Reads the compositor's announcement of the stacking order.
pub fn parse_stacking_order(announced: &str) -> (r: Vec<String>)
    ensures
        text::texts(r@) == stacked_ids(text::split(announced@, ';')),
{
    nonempty(text::pieces(announced, ';'))
}

/// How often the compositor is asked for its stacking order.
pub const STACKING_TRIPS: u32 = 4;

/// The stacking order once the compositor was asked `trips` times: what it
/// announced, nothing yet, or that it announces none.
pub fn stacking_order(trips: u32, announced: Option<&str>) -> (r: Result<
    Option<Vec<String>>,
    KwinError,
>)
    ensures
        match announced {
            Some(a) => r matches Ok(Some(v)) && text::texts(v@) == stacked_ids(
                text::split(a@, ';'),
            ),
            None => if trips < STACKING_TRIPS {
                r matches Ok(None)
            } else {
                r matches Err(e) && e == KwinError::NoStackingOrder
            },
        },
{
    match announced {
        Some(a) => Ok(Some(parse_stacking_order(a))),
        None => if trips < STACKING_TRIPS {
            Ok(None)
        } else {
            Err(KwinError::NoStackingOrder)
        },
    }
}

/// The texts that are not empty.
pub fn nonempty(v: Vec<String>) -> (r: Vec<String>)
    ensures
        text::texts(r@) == stacked_ids(text::texts(v@)),
{
    let mut out: Vec<String> = Vec::new();
    let ghost all = text::texts(v@);
    assert(text::texts(out@) =~= stacked_ids(all.take(0)));
    for i in 0..v.len()
        invariant
            all == text::texts(v@),
            text::texts(out@) == stacked_ids(all.take(i as int)),
    {
        assert(all.take(i + 1).drop_last() =~= all.take(i as int));
        assert(all.take(i + 1).last() == v@[i as int]@);
        if !v[i].as_str().is_empty() {
            let ghost before = out@;
            out.push(v[i].clone());
            assert(text::texts(out@) =~= text::texts(before).push(v@[i as int]@));
        }
    }
    assert(all.take(v@.len() as int) =~= all);
    out
}

// ---- keeping windows out of captures ---------------------------------------------------------

/// A resident script of the compositor, and the file that it was loaded from.
#[derive(Debug)]
pub struct CaptureExclusionGuard {
    pub script_path: String,
    pub file: String,
}

/// What `str`'s `Debug` formatting gives: the text in double quotes, with
/// escapes.
pub uninterp spec fn debug_text(s: Seq<char>) -> Seq<char>;

/// `format!` with `{:?}` on a text: a function of the text alone.
#[verifier::external_body]
fn quoted(s: &str) -> (r: String)
    ensures
        r@ == debug_text(s@),
{
    format!("{:?}", s)
}

/// The script that keeps this process's windows whose caption holds the marker
/// out of every capture.
pub open spec fn exclusion_text(pid: u32, marker: Seq<char>) -> Seq<char> {
    "function apply(w) {\n    if (w.pid == "@ + text::dec(pid as nat)
        + " && w.caption.includes("@ + debug_text(marker)
        + ")) {\n        w.excludeFromCapture = true;\n    }\n}\nworkspace.windowList().forEach(apply);\nworkspace.windowAdded.connect(apply);\n"@
}

/// The script that keeps this process's windows whose caption holds the marker
/// out of every capture.
pub fn exclusion_script(pid: u32, marker: &str) -> (r: String)
    ensures
        r@ == exclusion_text(pid, marker@),
{
    let mut s = String::from_str("function apply(w) {\n    if (w.pid == ");
    text::push_dec(&mut s, pid as u64);
    s.append(" && w.caption.includes(");
    s.append(quoted(marker).as_str());
    s.append(
        ")) {\n        w.excludeFromCapture = true;\n    }\n}\nworkspace.windowList().forEach(apply);\nworkspace.windowAdded.connect(apply);\n",
    );
    s
}

/// The name of the file that the script is loaded from.
pub fn exclusion_file(pid: u32) -> (r: String)
    ensures
        r@ == "capscr_kwin_"@ + text::dec(pid as nat) + ".js"@,
{
    let mut s = String::from_str("capscr_kwin_");
    text::push_dec(&mut s, pid as u64);
    s.append(".js");
    s
}

/// The script that the compositor loaded from the file under a number, or
/// refused with a negative one.
pub fn exclude_own_windows_from_capture(id: i32, file: String) -> (r: Result<
    CaptureExclusionGuard,
    KwinError,
>)
    ensures
        id < 0 ==> (r matches Err(e) && e == KwinError::ScriptRefused),
        id >= 0 ==> (r matches Ok(g) && g.script_path@ == "/Scripting/Script"@ + text::dec(
            id as nat,
        ) && g.file == file),
{
    if id < 0 {
        return Err(KwinError::ScriptRefused);
    }
    let mut s = String::from_str("/Scripting/Script");
    text::push_dec(&mut s, id as u64);
    Ok(CaptureExclusionGuard { script_path: s, file })
}

// ---- laws --------------------------------------------------------------------------------------

/// A picture of KWin has the colours of its bytes and is opaque. The formats 4,
/// 5 and 6 begin with blue, 17 and 18 with red; any other is refused, and so are
/// rows that are shorter than their pixels.
pub proof fn lemma_pictures_are_decoded(
    buf: &[u8],
    w: u32,
    h: u32,
    stride: u32,
    format: u32,
    r: Result<RgbaImage, KwinError>,
    x: int,
    y: int,
)
    requires
        call_ensures(decode, (buf, w, h, stride, format), r),
        w * 4 <= stride,
        0 <= x < w,
        0 <= y < h,
    ensures
        r is Ok <==> format == 4 || format == 5 || format == 6 || format == 17 || format == 18,
        r matches Ok(img) ==> {
            let p = img.pixels()[y * w + x];
            let o = y * stride + x * 4;
            &&& img.spec_width() == w && img.spec_height() == h
            &&& p.a == 255
            &&& p.g == buf@[o + 1]
            &&& format <= 6 ==> p.b == buf@[o] && p.r == buf@[o + 2]
            &&& format >= 17 ==> p.r == buf@[o] && p.b == buf@[o + 2]
        },
{
    if r is Ok {
        assert(r->Ok_0.inside(x, y));
        let p = r->Ok_0.px(x, y);
    }
}

/// Rows that are too short for their pixels are refused.
pub proof fn lemma_short_rows_are_refused(
    buf: &[u8],
    w: u32,
    h: u32,
    stride: u32,
    format: u32,
    r: Result<RgbaImage, KwinError>,
)
    requires
        call_ensures(decode, (buf, w, h, stride, format), r),
        stride < w * 4,
        stride < u32::MAX,
    ensures
        r matches Err(KwinError::ShortStride { stride: s, width }) && s == stride && width == w,
{
}

/// The handle in a match stands behind its first underscore.
pub proof fn lemma_handle_stands_behind_the_underscore(
    id: &str,
    front: Seq<char>,
    handle: Seq<char>,
    r: String,
)
    requires
        call_ensures(match_handle, (id,), r),
        !front.contains('_'),
    ensures
        id@ == front + seq!['_'] + handle ==> r@ == handle,
        id@ == front ==> r@ == front,
{
    if id@ == front + seq!['_'] + handle {
        assert forall|i: int| 0 <= i < front.len() implies id@[i] != '_' by {
            assert(front[i] == id@[i]);
            assert(front.contains(front[i]));
        }
        assert(id@[front.len() as int] == '_');
        text::lemma_find_is(id@, '_', front.len() as int);
        assert(id@.skip((front.len() + 1) as int) =~= handle);
    } else if id@ == front {
        assert forall|i: int| 0 <= i < id@.len() implies id@[i] != '_' by {
            assert(front.contains(front[i]));
        }
        text::lemma_find_is(id@, '_', id@.len() as int);
    }
}

/// No handle comes twice, and each is that of a match.
pub proof fn lemma_handles_come_once(ids: &[String], r: Vec<String>, i: int, j: int)
    requires
        call_ensures(match_handles, (ids,), r),
        0 <= i < j < r@.len(),
    ensures
        r@[i]@ != r@[j]@,
{
    let handles = text::texts(ids@).map_values(|t: Seq<char>| handle_of(t));
    text::lemma_distinct(handles);
    assert(text::texts(r@)[i] == r@[i]@);
    assert(text::texts(r@)[j] == r@[j]@);
}

proof fn lemma_kept_places(entries: Seq<WindowEntry>, own_pid: i32)
    ensures
        forall|i: int|
            0 <= i < kept_places(entries, own_pid).len() ==> 0 <= #[trigger] kept_places(
                entries,
                own_pid,
            )[i] < entries.len() && keeps(entries[kept_places(entries, own_pid)[i]], own_pid),
    decreases entries.len(),
{
    if entries.len() > 0 {
        let rest = entries.drop_last();
        lemma_kept_places(rest, own_pid);
        assert forall|i: int| 0 <= i < kept_places(entries, own_pid).len() implies 0
            <= #[trigger] kept_places(entries, own_pid)[i] < entries.len() && keeps(
            entries[kept_places(entries, own_pid)[i]],
            own_pid,
        ) by {
            if i < kept_places(rest, own_pid).len() {
                assert(kept_places(entries, own_pid)[i] == kept_places(rest, own_pid)[i]);
                assert(rest[kept_places(rest, own_pid)[i]] == entries[kept_places(
                    rest,
                    own_pid,
                )[i]]);
            }
        }
    }
}

/// A window that can be picked belongs to another program, is on screen, wants to
/// be seen and stands where the compositor says.
pub proof fn lemma_picked_windows_belong_to_others(
    entries: &[WindowEntry],
    own_pid: i32,
    order: Option<&[String]>,
    r: Vec<KwinWindow>,
    i: int,
)
    requires
        call_ensures(pickable_windows, (entries, own_pid, order), r),
        0 <= i < r@.len(),
    ensures
        exists|k: int|
            0 <= k < entries@.len() && (#[trigger] entries@[k]).handle@ == r@[i].handle@
                && entries@[k].pid != Some(own_pid) && !entries@[k].minimized
                && !entries@[k].skip_switcher && !entries@[k].skip_taskbar
                && !entries@[k].exclude_from_capture && (entries@[k].geometry matches Some(g)
                && !g.tiny && g.x == r@[i].x && g.y == r@[i].y && g.width == r@[i].width && g.height
                == r@[i].height),
{
    let places = kept_places(entries@, own_pid);
    lemma_kept_places(entries@, own_pid);
    let perm = choose|perm: Seq<usize>| #[trigger]
        order::is_newest_first(window_keys(entries@, places, order_texts(order)), perm) && forall|
            i: int,
        |
            0 <= i < r@.len() ==> shows_window(#[trigger] r@[i], entries@[places[perm[i] as int]]);
    assert(order::lists_all(perm, places.len() as int));
    assert(shows_window(r@[i], entries@[places[perm[i] as int]]));
    let k = places[perm[i] as int];
    assert(keeps(entries@[k], own_pid));
}

proof fn lemma_stacked_ids(s: Seq<Seq<char>>)
    ensures
        forall|i: int| 0 <= i < stacked_ids(s).len() ==> (#[trigger] stacked_ids(s)[i]).len() > 0,
        (forall|i: int| 0 <= i < s.len() ==> (#[trigger] s[i]).len() > 0) ==> stacked_ids(s) == s,
    decreases s.len(),
{
    if s.len() > 0 {
        let rest = stacked_ids(s.drop_last());
        lemma_stacked_ids(s.drop_last());
        assert forall|i: int| 0 <= i < stacked_ids(s).len() implies (#[trigger] stacked_ids(
            s,
        )[i]).len() > 0 by {
            if i < rest.len() {
                assert(stacked_ids(s)[i] == rest[i]);
            }
        }
        if forall|i: int| 0 <= i < s.len() ==> (#[trigger] s[i]).len() > 0 {
            assert(s.last() == s[s.len() - 1]);
            assert forall|i: int| 0 <= i < s.drop_last().len() implies (
            #[trigger] s.drop_last()[i]).len() > 0 by {
                assert(s.drop_last()[i] == s[i]);
            }
            assert(stacked_ids(s) =~= s);
        }
    }
}

/// The stacking order is what stands between the semicolons, without what is
/// empty.
pub proof fn lemma_stacking_order_is_between_semicolons(
    announced: &str,
    r: Vec<String>,
    pieces: Vec<String>,
    i: int,
)
    requires
        call_ensures(parse_stacking_order, (announced,), r),
        call_ensures(text::pieces, (announced, ';'), pieces),
    ensures
        0 <= i < r@.len() ==> r@[i]@.len() > 0,
        (forall|k: int| 0 <= k < pieces@.len() ==> (#[trigger] pieces@[k])@.len() > 0)
            ==> text::texts(r@) == text::texts(pieces@),
{
    let t = text::texts(pieces@);
    lemma_stacked_ids(t);
    if 0 <= i < r@.len() {
        assert(text::texts(r@)[i] == r@[i]@);
    }
    if forall|k: int| 0 <= k < pieces@.len() ==> (#[trigger] pieces@[k])@.len() > 0 {
        assert forall|k: int| 0 <= k < t.len() implies (#[trigger] t[k]).len() > 0 by {
            assert(t[k] == pieces@[k]@);
        }
    }
}

/// The compositor is asked four times for its stacking order.
pub proof fn lemma_stacking_order_is_asked_four_times(
    trips: u32,
    r: Result<Option<Vec<String>>, KwinError>,
)
    requires
        call_ensures(stacking_order, (trips, None), r),
    ensures
        r is Err <==> trips >= 4,
        r matches Ok(v) ==> v is None,
{
}

/// A reply without a side or a stride is refused, and so is one whose pipe
/// brought fewer bytes than its rows take.
pub proof fn lemma_incomplete_replies_are_refused(
    reply: ScreenshotReply,
    buf: &[u8],
    r: Result<RgbaImage, KwinError>,
    w: u32,
    h: u32,
    s: u32,
)
    requires
        call_ensures(decode_reply, (&reply, buf), r),
    ensures
        reply.width is None ==> r == Err::<RgbaImage, KwinError>(
            KwinError::Missing(ReplyField::Width),
        ),
        reply.width == Some(BusValue::U32(w)) && reply.height == Some(BusValue::U32(h))
            && reply.stride == Some(BusValue::U32(s)) && buf@.len() < s * h ==> r is Err,
        reply.width == Some(BusValue::U32(w)) && reply.height == Some(BusValue::U32(h))
            && reply.stride == Some(BusValue::U32(s)) && (r matches Ok(img) && true) ==> (
        r->Ok_0.spec_width() == w && r->Ok_0.spec_height() == h),
{
}

/// A reply that names no format is read with blue first.
pub proof fn lemma_replies_begin_with_blue(
    reply: ScreenshotReply,
    buf: &[u8],
    img: RgbaImage,
    w: u32,
    h: u32,
    s: u32,
    x: int,
    y: int,
)
    requires
        call_ensures(decode_reply, (&reply, buf), Ok(img)),
        reply.width == Some(BusValue::U32(w)),
        reply.height == Some(BusValue::U32(h)),
        reply.stride == Some(BusValue::U32(s)),
        reply.format is None,
        0 <= x < w,
        0 <= y < h,
    ensures
        ({
            let p = img.pixels()[y * w + x];
            let o = y * s + x * 4;
            p.b == buf@[o] && p.g == buf@[o + 1] && p.r == buf@[o + 2] && p.a == 255
        }),
{
    assert(img.inside(x, y));
    let p = img.px(x, y);
}

} // verus!
