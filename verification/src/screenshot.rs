//! Screen capture rules: which capture regions are accepted, where a region lies on the
//! monitor that shows it, and which monitor a full-screen capture uses.
use vstd::prelude::*;

use crate::error::{Error, ErrorKind};
use crate::ocr::BBox;
use crate::text::{decimal, owned, push_char, push_decimal, push_str};

verus! {

/// Width, height and, when saved, the path of a captured image.
#[derive(Debug)]
pub struct ImageMeta {
    pub width: u32,
    pub height: u32,
    pub path: Option<String>,
}

/// The screen capturer; captures themselves go through the platform.
#[derive(Debug)]
pub struct Screencap;

impl Screencap {
    /// A capturer; creating one cannot fail.
    pub fn new() -> (r: Result<Screencap, Error>)
        ensures
            r is Ok,
    {
        Ok(Screencap)
    }
}

/// Rejects a capture region without area.
pub fn validate_region(bbox: BBox) -> (r: Result<(), Error>)
    ensures
        bbox.width == 0 || bbox.height == 0 ==> (r matches Err(e) && e@ == (
            ErrorKind::Screenshot,
            "capture region cannot be empty"@,
        )),
        bbox.width > 0 && bbox.height > 0 ==> r is Ok,
{
    if bbox.width == 0 || bbox.height == 0 {
        return Err(Error::from_str(ErrorKind::Screenshot, "capture region cannot be empty"));
    }
    Ok(())
}

/// What is wrong with a `width` × `height` region at (`x`, `y`) on a
/// `monitor_width` × `monitor_height` monitor, or `None` when it fits.
pub open spec fn monitor_region_problem(
    x: u32,
    y: u32,
    width: u32,
    height: u32,
    monitor_width: u32,
    monitor_height: u32,
) -> Option<Seq<char>> {
    if x + width > u32::MAX || y + height > u32::MAX {
        Some("capture region exceeds monitor bounds"@)
    } else if x + width > monitor_width || y + height > monitor_height {
        Some(
            "capture region "@ + decimal(x as nat) + ","@ + decimal(y as nat) + " "@ + decimal(
                width as nat,
            ) + "x"@ + decimal(height as nat) + " exceeds monitor bounds "@ + decimal(
                monitor_width as nat,
            ) + "x"@ + decimal(monitor_height as nat),
        )
    } else {
        None
    }
}

/// Rejects a region that does not fit on the monitor, including one whose edge
/// overflows `u32`.
pub fn validate_region_inside_monitor(
    x: u32,
    y: u32,
    width: u32,
    height: u32,
    monitor_width: u32,
    monitor_height: u32,
) -> (r: Result<(), Error>)
    ensures
        match monitor_region_problem(x, y, width, height, monitor_width, monitor_height) {
            None => r is Ok,
            Some(m) => r matches Err(e) && e@ == (ErrorKind::Screenshot, m),
        },
{
    let right = match x.checked_add(width) {
        Some(v) => v,
        None => {
            return Err(
                Error::from_str(ErrorKind::Screenshot, "capture region exceeds monitor bounds"),
            );
        },
    };
    let bottom = match y.checked_add(height) {
        Some(v) => v,
        None => {
            return Err(
                Error::from_str(ErrorKind::Screenshot, "capture region exceeds monitor bounds"),
            );
        },
    };
    if right > monitor_width || bottom > monitor_height {
        proof {
            reveal_strlit(",");
            reveal_strlit(" ");
            reveal_strlit("x");
        }
        let mut m = owned("capture region ");
        push_decimal(&mut m, x as u64);
        push_char(&mut m, ',');
        push_decimal(&mut m, y as u64);
        push_char(&mut m, ' ');
        push_decimal(&mut m, width as u64);
        push_char(&mut m, 'x');
        push_decimal(&mut m, height as u64);
        push_str(&mut m, " exceeds monitor bounds ");
        push_decimal(&mut m, monitor_width as u64);
        push_char(&mut m, 'x');
        push_decimal(&mut m, monitor_height as u64);
        return Err(Error::new(ErrorKind::Screenshot, m));
    }
    Ok(())
}

/// The monitor-local coordinate of a desktop coordinate `global` on a monitor whose
/// origin is at `origin`: the global value read as an `i32`, less the origin, at least 0.
pub open spec fn local_coordinate(global: u32, origin: i32) -> u32 {
    let g = global as i32;
    if g - origin < 0 {
        0
    } else {
        (g - origin) as u32
    }
}

/// Where a desktop coordinate lies on the monitor whose origin is at `origin`.
pub fn monitor_local_coordinate(global: u32, origin: i32) -> (r: u32)
    requires
        i32::MIN <= (global as i32) - origin <= i32::MAX,
    ensures
        r == local_coordinate(global, origin),
{
    let g = global as i32;
    let d = g - origin;
    if d < 0 {
        0
    } else {
        d as u32
    }
}

/// The index of the monitor a full-screen capture uses: the first primary one, or the
/// first one when none is primary.
pub fn primary_monitor_index(primary: &Vec<bool>) -> (r: Result<usize, Error>)
    ensures
        primary@.len() == 0 ==> (r matches Err(e) && e@ == (
            ErrorKind::Screenshot,
            "no monitor available"@,
        )),
        primary@.len() > 0 ==> (r matches Ok(i) && i < primary@.len() && (forall|j: int|
            0 <= j < i ==> !primary@[j]) && (primary@[i as int] || forall|j: int|
            0 <= j < primary@.len() ==> !primary@[j]) && ((exists|j: int|
            0 <= j < primary@.len() && primary@[j]) || i == 0)),
{
    if primary.len() == 0 {
        return Err(Error::from_str(ErrorKind::Screenshot, "no monitor available"));
    }
    let mut k: usize = 0;
    while k < primary.len()
        invariant
            k <= primary@.len(),
            primary@.len() > 0,
            forall|j: int| 0 <= j < k ==> !primary@[j],
        decreases primary.len() - k,
    {
        if primary[k] {
            return Ok(k);
        }
        k += 1;
    }
    Ok(0)
}

} // verus!
