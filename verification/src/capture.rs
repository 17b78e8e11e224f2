//! The capture orchestrator: deciding, from the attached displays and an
//! optional selection, which local rectangle to capture on which display,
//! and assembling per-display outcomes into a partial result.

use vstd::prelude::*;

use crate::display::{
    first_display_at, lemma_to_local_monotone, to_local_spec, DisplayDescriptor,
};
use crate::geometry::{norm_spec, overlap_wide, rects_overlap, Point, Rectangle};

verus! {

/// An unordered pair of opposite corner points supplied by a caller; the
/// two points may be any two opposite corners, in any order.
#[derive(Clone, Copy, PartialEq, Eq, Structural, Debug)]
pub struct Selection {
    pub a: Point,
    pub b: Point,
}

/// One capture request: the display to read and the rectangle to read from
/// it, in that display's local pixel space.
#[derive(Clone, Copy, PartialEq, Eq, Structural, Debug)]
pub struct CaptureRegion {
    pub display_id: u32,
    pub x: i32,
    pub y: i32,
    pub width: u32,
    pub height: u32,
}

/// The error taxonomy of the capture pipeline.
#[derive(Clone, Copy, PartialEq, Eq, Structural, Debug)]
pub enum CaptureError {
    /// Malformed or missing coordinate input.
    InvalidSelection,
    /// A selection corner lies outside every attached display.
    NoDisplayAtPoint,
    /// The capture primitive failed for the named display.
    CaptureFailed(u32),
    /// The compression backend failed.
    EncodeFailed,
    /// Writing one output item failed.
    PersistFailed,
}

/// A raw pixel buffer read from one display: RGBA, four bytes per pixel.
#[derive(Debug)]
pub struct RawImage {
    pub width: u32,
    pub height: u32,
    pub rgba: Vec<u8>,
}

/// What the capture primitive reported for one display: the image it read,
/// or `None` when the capture failed on that display.
#[derive(Debug)]
pub struct CaptureOutcome {
    pub display_id: u32,
    pub image: Option<RawImage>,
}

/// The region covering one display's full bounds.
pub open spec fn full_region(d: DisplayDescriptor) -> CaptureRegion {
    CaptureRegion { display_id: d.id, x: 0, y: 0, width: d.width, height: d.height }
}

/// The region captured on display `d` for the normalized selection
/// rectangle `rect`: both of the selection's global corners mapped into
/// `d`'s local space, the sides being the differences of the mapped corners.
pub open spec fn region_for(d: DisplayDescriptor, rect: Rectangle) -> CaptureRegion {
    let lt = to_local_spec(rect.tl, d);
    let lb = to_local_spec(rect.br, d);
    CaptureRegion {
        display_id: d.id,
        x: lt.x,
        y: lt.y,
        width: (lb.x - lt.x) as u32,
        height: (lb.y - lt.y) as u32,
    }
}

/// Whether the normalized selection rectangle `rect` touches display `d`,
/// under the edge-exclusive overlap policy, with both rectangles taken in
/// global `(x, y, width, height)` form.
pub open spec fn touches(d: DisplayDescriptor, rect: Rectangle) -> bool {
    rects_overlap(
        d.origin.x as int, d.origin.y as int, d.width as int, d.height as int,
        rect.tl.x as int, rect.tl.y as int,
        rect.br.x - rect.tl.x, rect.br.y - rect.tl.y,
    )
}

/// The plan of a multi-display capture: one region per display touched by
/// the selection rectangle, in enumeration order; displays the selection
/// does not touch are skipped entirely.
pub open spec fn multi_plan(ds: Seq<DisplayDescriptor>, rect: Rectangle) -> Seq<CaptureRegion>
    decreases ds.len(),
{
    if ds.len() == 0 {
        Seq::empty()
    } else {
        let init = multi_plan(ds.drop_last(), rect);
        if touches(ds.last(), rect) {
            init.push(region_for(ds.last(), rect))
        } else {
            init
        }
    }
}

/// Decides what to capture. With no selection, every display is captured in
/// full. With a selection whose corners lie on the same display, that
/// display is captured once, over the normalized selection mapped to local
/// space. With corners on different displays, every display touched by the
/// normalized selection is captured, the selection's own corners mapped
/// into each touched display's local space. A selection corner outside all
/// displays fails the whole request with `NoDisplayAtPoint`.
pub fn plan_capture(
    displays: &Vec<DisplayDescriptor>,
    selection: Option<Selection>,
) -> (r: Result<Vec<CaptureRegion>, CaptureError>)
    requires
        forall|i: int| 0 <= i < displays@.len() ==> (#[trigger] displays@[i]).wf(),
    ensures
        selection is None ==> r is Ok
            && r->Ok_0@ == displays@.map_values(|d: DisplayDescriptor| full_region(d)),
        (match selection {
            Some(s) => {
                let rect = norm_spec(s.a, s.b);
                match (first_display_at(displays@, rect.tl), first_display_at(displays@, rect.br)) {
                    (Some(ti), Some(bi)) => {
                        if displays@[ti].id == displays@[bi].id {
                            r is Ok && r->Ok_0@ == seq![region_for(displays@[ti], rect)]
                        } else {
                            r is Ok && r->Ok_0@ == multi_plan(displays@, rect)
                        }
                    },
                    _ => r is Err && r->Err_0 == CaptureError::NoDisplayAtPoint,
                }
            },
            None => true,
        }),
{
    match selection {
        None => {
            let n = displays.len();
            let mut out: Vec<CaptureRegion> = Vec::new();
            let mut i: usize = 0;
            while i < n
                invariant
                    n == displays@.len(),
                    0 <= i <= n,
                    out@ == displays@.subrange(0, i as int).map_values(
                        |d: DisplayDescriptor| full_region(d),
                    ),
                decreases n - i,
            {
                let d = displays[i];
                out.push(CaptureRegion {
                    display_id: d.id,
                    x: 0,
                    y: 0,
                    width: d.width,
                    height: d.height,
                });
                proof {
                    let f = |dd: DisplayDescriptor| full_region(dd);
                    assert(displays@.subrange(0, i + 1 as int)
                        =~= displays@.subrange(0, i as int).push(displays@[i as int]));
                    assert(displays@.subrange(0, i + 1 as int).map_values(f)
                        =~= displays@.subrange(0, i as int).map_values(f).push(
                            full_region(displays@[i as int]),
                        ));
                }
                i += 1;
            }
            proof {
                assert(displays@.subrange(0, n as int) =~= displays@);
            }
            Ok(out)
        },
        Some(s) => {
            let rect = crate::geometry::normalize(s.a, s.b);
            let ti = crate::display::display_at(displays, rect.tl);
            let bi = crate::display::display_at(displays, rect.br);
            match (ti, bi) {
                (Some(ti), Some(bi)) => {
                    let dt = displays[ti];
                    let db = displays[bi];
                    if dt.id == db.id {
                        let lt = rect.tl.to_local(&dt);
                        let lb = rect.br.to_local(&dt);
                        proof {
                            lemma_to_local_monotone(rect.tl, rect.br, dt);
                        }
                        let mut out: Vec<CaptureRegion> = Vec::new();
                        out.push(CaptureRegion {
                            display_id: dt.id,
                            x: lt.x,
                            y: lt.y,
                            width: (lb.x - lt.x) as u32,
                            height: (lb.y - lt.y) as u32,
                        });
                        proof {
                            assert(out@ =~= seq![region_for(displays@[ti as int], rect)]);
                        }
                        Ok(out)
                    } else {
                        Ok(multi_capture_plan(displays, rect))
                    }
                },
                _ => Err(CaptureError::NoDisplayAtPoint),
            }
        },
    }
}

/// The multi-display branch of the orchestrator: walks every display and
/// plans one capture per display touched by the selection rectangle.
fn multi_capture_plan(displays: &Vec<DisplayDescriptor>, rect: Rectangle) -> (out: Vec<
    CaptureRegion,
>)
    requires
        forall|i: int| 0 <= i < displays@.len() ==> (#[trigger] displays@[i]).wf(),
        rect.tl.x <= rect.br.x,
        rect.tl.y <= rect.br.y,
    ensures
        out@ == multi_plan(displays@, rect),
{
    let n = displays.len();
    let mut out: Vec<CaptureRegion> = Vec::new();
    let mut i: usize = 0;
    while i < n
        invariant
            n == displays@.len(),
            0 <= i <= n,
            forall|k: int| 0 <= k < displays@.len() ==> (#[trigger] displays@[k]).wf(),
            rect.tl.x <= rect.br.x,
            rect.tl.y <= rect.br.y,
            out@ == multi_plan(displays@.subrange(0, i as int), rect),
        decreases n - i,
    {
        let d = displays[i];
        let sel_w = rect.br.x as i64 - rect.tl.x as i64;
        let sel_h = rect.br.y as i64 - rect.tl.y as i64;
        let hit = overlap_wide(
            d.origin.x as i64, d.origin.y as i64, d.width as i64, d.height as i64,
            rect.tl.x as i64, rect.tl.y as i64, sel_w, sel_h,
        );
        assert(hit == touches(displays@[i as int], rect));
        if hit {
            let lt = rect.tl.to_local(&d);
            let lb = rect.br.to_local(&d);
            proof {
                lemma_to_local_monotone(rect.tl, rect.br, d);
            }
            out.push(CaptureRegion {
                display_id: d.id,
                x: lt.x,
                y: lt.y,
                width: (lb.x - lt.x) as u32,
                height: (lb.y - lt.y) as u32,
            });
        }
        proof {
            let sub = displays@.subrange(0, i + 1 as int);
            assert(sub.drop_last() =~= displays@.subrange(0, i as int));
            assert(sub.last() == displays@[i as int]);
        }
        i += 1;
    }
    proof {
        assert(displays@.subrange(0, n as int) =~= displays@);
    }
    out
}

/// The captured images among a run's outcomes, with their display ids, in
/// capture order.
pub open spec fn captured_of(os: Seq<CaptureOutcome>) -> Seq<(u32, RawImage)>
    decreases os.len(),
{
    if os.len() == 0 {
        Seq::empty()
    } else {
        let init = captured_of(os.drop_last());
        match os.last().image {
            Some(img) => init.push((os.last().display_id, img)),
            None => init,
        }
    }
}

/// The ids of the displays whose capture failed, in capture order.
pub open spec fn failed_of(os: Seq<CaptureOutcome>) -> Seq<u32>
    decreases os.len(),
{
    if os.len() == 0 {
        Seq::empty()
    } else {
        let init = failed_of(os.drop_last());
        match os.last().image {
            Some(_) => init,
            None => init.push(os.last().display_id),
        }
    }
}

/// Splits per-display capture outcomes into the successfully captured
/// images and a manifest of the displays whose capture failed, so that one
/// failed display does not abort the rest of the request.
pub fn partition_outcomes(outcomes: Vec<CaptureOutcome>) -> (r: (Vec<(u32, RawImage)>, Vec<u32>))
    ensures
        r.0@ == captured_of(outcomes@),
        r.1@ == failed_of(outcomes@),
{
    let ghost all = outcomes@;
    let total = outcomes.len();
    let mut rest = outcomes;
    let mut images: Vec<(u32, RawImage)> = Vec::new();
    let mut failed: Vec<u32> = Vec::new();
    let mut k: usize = 0;
    while rest.len() > 0
        invariant
            all.len() == total,
            0 <= k <= all.len(),
            rest@ == all.subrange(k as int, all.len() as int),
            images@ == captured_of(all.subrange(0, k as int)),
            failed@ == failed_of(all.subrange(0, k as int)),
        decreases rest.len(),
    {
        assert(k < all.len()) by {
            assert(rest@.len() == all.len() - k);
        }
        let o = rest.remove(0);
        assert(o == all[k as int]);
        match o.image {
            Some(img) => images.push((o.display_id, img)),
            None => failed.push(o.display_id),
        }
        proof {
            let sub = all.subrange(0, k + 1 as int);
            assert(sub.drop_last() =~= all.subrange(0, k as int));
            assert(sub.last() == all[k as int]);
            assert(rest@ =~= all.subrange(k + 1 as int, all.len() as int));
        }
        k += 1;
    }
    proof {
        assert(all.subrange(0, k as int) =~= all);
    }
    (images, failed)
}

} // verus!
