use vstd::prelude::*;

use crate::text::{trim, trimmed};

verus! {

/// The largest canvas side, in pixels.
pub const MAX_CANVAS_DIMENSION: u32 = 16_384;

/// A frame rate as a fraction of frames per second.
#[derive(Clone, Copy, Debug, PartialEq, Eq, Structural)]
pub struct FrameRate {
    pub numerator: i64,
    pub denominator: i64,
}

/// The settings used where a request gives none: canvas size and frame rate
/// (numerator, denominator).
#[derive(Clone, Copy, Debug, PartialEq, Eq)]
pub struct ProjectDefaults {
    pub width: u32,
    pub height: u32,
    pub fps: FrameRate,
}

/// The settings of a project about to be created.
#[derive(Clone, Debug, PartialEq, Eq)]
pub struct NewProject {
    pub name: String,
    pub width: u32,
    pub height: u32,
    pub fps: FrameRate,
}

/// Two frame rates are the same number.
pub open spec fn same_rate(a: FrameRate, b: FrameRate) -> bool {
    a.numerator * b.denominator == b.numerator * a.denominator
}

/// What a request to create a project gives (a project without a name is
/// called "Untitled Project"): each check in turn, the first
/// that fails giving its message; otherwise the trimmed name (or the default)
/// and the chosen sizes and rate.
pub open spec fn new_project_spec(
    path_is_absolute: bool,
    name: Option<Seq<char>>,
    width: Option<u32>,
    height: Option<u32>,
    fps: Option<FrameRate>,
    defaults: ProjectDefaults,
    supported: Seq<FrameRate>,
) -> Result<(Seq<char>, u32, u32, FrameRate), Seq<char>> {
    let chosen_name = trim(
        match name {
            Some(n) => n,
            None => "Untitled Project"@,
        },
    );
    let w = match width {
        Some(w) => w,
        None => defaults.width,
    };
    let h = match height {
        Some(h) => h,
        None => defaults.height,
    };
    if !path_is_absolute {
        Err("project_path must be an absolute path"@)
    } else if chosen_name.len() == 0 {
        Err("name must not be empty"@)
    } else if !(1 <= w <= MAX_CANVAS_DIMENSION) || !(1 <= h <= MAX_CANVAS_DIMENSION) {
        Err("width and height must be between 1 and 16384"@)
    } else {
        match fps {
            None => Ok((chosen_name, w, h, defaults.fps)),
            Some(rate) => if rate.numerator <= 0 || rate.denominator <= 0 {
                Err("fps numerator and denominator must be positive"@)
            } else if !(exists|i: int| 0 <= i < supported.len() && same_rate(#[trigger] supported[i], rate)) {
                Err("fps must match one of Shrimply's supported frame rates"@)
            } else {
                Ok((chosen_name, w, h, rate))
            },
        }
    }
}

proof fn lemma_products_fit(a: int, b: int)
    requires
        i64::MIN <= a <= i64::MAX,
        i64::MIN <= b <= i64::MAX,
    ensures
        i128::MIN <= a * b <= i128::MAX,
{
    assert(-0x8000_0000_0000_0000 * 0x8000_0000_0000_0000 <= a * b <= 0x8000_0000_0000_0000
        * 0x8000_0000_0000_0000) by (nonlinear_arith)
        requires
            -0x8000_0000_0000_0000 <= a <= 0x7fff_ffff_ffff_ffff,
            -0x8000_0000_0000_0000 <= b <= 0x7fff_ffff_ffff_ffff,
    ;
}

/// Checks the settings of a project to be created; `path_is_absolute` tells
/// whether the requested project path is absolute.
pub fn new_project_settings(
    path_is_absolute: bool,
    name: Option<&str>,
    width: Option<u32>,
    height: Option<u32>,
    fps: Option<FrameRate>,
    defaults: ProjectDefaults,
    supported: &[FrameRate],
) -> (result: Result<NewProject, String>)
    ensures
        match (result, new_project_spec(
            path_is_absolute,
            match name {
                Some(n) => Some(n@),
                None => None,
            },
            width,
            height,
            fps,
            defaults,
            supported@,
        )) {
            (Ok(p), Ok((n, w, h, r))) => p.name@ == n && p.width == w && p.height == h && p.fps == r,
            (Err(message), Err(expected)) => message@ == expected,
            _ => false,
        },
{
    if !path_is_absolute {
        return Err("project_path must be an absolute path".to_owned());
    }
    let chosen = match name {
        Some(n) => trimmed(n),
        None => trimmed("Untitled Project"),
    };
    if chosen.unicode_len() == 0 {
        return Err("name must not be empty".to_owned());
    }
    let w = match width {
        Some(w) => w,
        None => defaults.width,
    };
    let h = match height {
        Some(h) => h,
        None => defaults.height,
    };
    if !(1 <= w && w <= MAX_CANVAS_DIMENSION) || !(1 <= h && h <= MAX_CANVAS_DIMENSION) {
        return Err("width and height must be between 1 and 16384".to_owned());
    }
    let rate = match fps {
        None => defaults.fps,
        Some(rate) => {
            if rate.numerator <= 0 || rate.denominator <= 0 {
                return Err("fps numerator and denominator must be positive".to_owned());
            }
            let mut i: usize = 0;
            let mut found = false;
            while i < supported.len()
                invariant_except_break
                    i <= supported@.len(),
                    forall|j: int| 0 <= j < i ==> !same_rate(#[trigger] supported@[j], rate),
                    !found,
                ensures
                    !found ==> forall|j: int| 0 <= j < supported@.len() ==> !same_rate(#[trigger] supported@[j], rate),
                    found ==> exists|j: int| 0 <= j < supported@.len() && same_rate(#[trigger] supported@[j], rate),
                decreases supported@.len() - i,
            {
                let candidate = supported[i];
                proof {
                    lemma_products_fit(candidate.numerator as int, rate.denominator as int);
                    lemma_products_fit(rate.numerator as int, candidate.denominator as int);
                }
                if (candidate.numerator as i128) * (rate.denominator as i128) == (rate.numerator as i128) * (candidate.denominator as i128) {
                    proof {
                        assert(same_rate(supported@[i as int], rate));
                    }
                    found = true;
                    break;
                }
                i = i + 1;
            }
            if !found {
                return Err("fps must match one of Shrimply's supported frame rates".to_owned());
            }
            rate
        },
    };
    Ok(NewProject { name: chosen, width: w, height: h, fps: rate })
}

} // verus!
