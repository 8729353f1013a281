//! Locating the functions that the component intercepts, from the byte
//! signatures of their code.
use vstd::prelude::*;

use crate::modules::{relative_to, Module, ModuleImage};
use crate::pattern::{first_malformed, is_first_match, pattern_of, tokens_of, tokens_valid, PatternError};

verus! {

/// The start of the client's per-tick input function.
pub const CREATE_MOVE_PATTERN: &'static str = "48 8B C4 4C 89 48 20 55";

/// The overlay's swap-chain presentation function.
pub const PRESENT_PATTERN: &'static str =
    "48 89 5C 24 ?? 48 89 6C 24 ?? 48 89 74 24 ?? 57 41 56 41 57 48 83 EC 20 41 8B E8";

/// The overlay's swap-chain buffer resize function.
pub const RESIZE_BUFFERS_PATTERN: &'static str =
    "48 89 5C 24 08 48 89 6C 24 10 48 89 74 24 18 57 41 56 41 57 48 83 EC 30 44";

/// The functions that are intercepted.
#[derive(Clone, Copy, Debug, PartialEq, Eq, Structural)]
pub enum HookSite {
    CreateMove,
    Present,
    ResizeBuffers,
}

/// The addresses of the intercepted functions.
#[derive(Clone, Copy, Debug, PartialEq, Eq, Structural)]
pub struct HookTargets {
    pub create_move: usize,
    pub present: usize,
    pub resize_buffers: usize,
}

#[derive(Clone, Copy, Debug, PartialEq, Eq, Structural)]
pub enum StartupError {
    /// The signature of `site` holds a malformed token at `index`.
    MalformedPattern { site: HookSite, index: usize },
    /// The signature of `site` occurs nowhere in its module.
    PatternNotFound { site: HookSite },
}

/// `addr` is the first occurrence of `text` in the image of `m`.
pub open spec fn located_at(m: (Seq<char>, ModuleImage), image: Seq<u8>, text: Seq<char>, addr: usize) -> bool {
    &&& tokens_valid(tokens_of(text))
    &&& image.len() > 0
    &&& is_first_match(image, pattern_of(text), relative_to(Some(addr), m.1.base()))
}

/// `text` is well formed and occurs nowhere in the image of `m`.
pub open spec fn absent_from(image: Seq<u8>, text: Seq<char>) -> bool {
    &&& tokens_valid(tokens_of(text))
    &&& (image.len() == 0 || is_first_match(image, pattern_of(text), None))
}

/// What a search for `text` in a module owes.
pub open spec fn site_outcome(
    m: (Seq<char>, ModuleImage),
    image: Seq<u8>,
    text: Seq<char>,
    site: HookSite,
    r: Result<usize, StartupError>,
) -> bool {
    match r {
        Ok(addr) => located_at(m, image, text, addr),
        Err(StartupError::MalformedPattern { site: s, index }) => s == site && first_malformed(
            text,
            index as int,
        ),
        Err(StartupError::PatternNotFound { site: s }) => s == site && absent_from(image, text),
    }
}

fn locate(module: &Module, image: &[u8], text: &str, site: HookSite) -> (r: Result<usize, StartupError>)
    requires
        image@.len() == module@.1.size(),
    ensures
        site_outcome(module@, image@, text@, site, r),
{
    match module.find_seq_of_bytes(image, text) {
        Ok(Some(addr)) => Ok(addr),
        Ok(None) => Err(StartupError::PatternNotFound { site }),
        Err(PatternError::MalformedToken { index }) => Err(StartupError::MalformedPattern { site, index }),
    }
}

/// Finds the three intercepted functions: the input function in the client
/// module, presentation and buffer resize in the overlay module. The first
/// signature that is malformed or not found stops the search.
pub fn initialize_hooks(
    client: &Module,
    client_image: &[u8],
    overlay: &Module,
    overlay_image: &[u8],
) -> (r: Result<HookTargets, StartupError>)
    requires
        client_image@.len() == client@.1.size(),
        overlay_image@.len() == overlay@.1.size(),
    ensures
        match r {
            Ok(t) => {
                &&& located_at(client@, client_image@, CREATE_MOVE_PATTERN@, t.create_move)
                &&& located_at(overlay@, overlay_image@, PRESENT_PATTERN@, t.present)
                &&& located_at(overlay@, overlay_image@, RESIZE_BUFFERS_PATTERN@, t.resize_buffers)
            },
            Err(e) => {
                ||| site_outcome(client@, client_image@, CREATE_MOVE_PATTERN@, HookSite::CreateMove, Err(e))
                ||| (exists|a: usize| located_at(client@, client_image@, CREATE_MOVE_PATTERN@, a))
                    && site_outcome(overlay@, overlay_image@, PRESENT_PATTERN@, HookSite::Present, Err(e))
                ||| (exists|a: usize| located_at(client@, client_image@, CREATE_MOVE_PATTERN@, a))
                    && (exists|a: usize| located_at(overlay@, overlay_image@, PRESENT_PATTERN@, a))
                    && site_outcome(
                    overlay@,
                    overlay_image@,
                    RESIZE_BUFFERS_PATTERN@,
                    HookSite::ResizeBuffers,
                    Err(e),
                )
            },
        },
{
    let create_move = match locate(client, client_image, CREATE_MOVE_PATTERN, HookSite::CreateMove) {
        Ok(a) => a,
        Err(e) => return Err(e),
    };
    let present = match locate(overlay, overlay_image, PRESENT_PATTERN, HookSite::Present) {
        Ok(a) => a,
        Err(e) => return Err(e),
    };
    let resize_buffers = match locate(
        overlay,
        overlay_image,
        RESIZE_BUFFERS_PATTERN,
        HookSite::ResizeBuffers,
    ) {
        Ok(a) => a,
        Err(e) => return Err(e),
    };
    Ok(HookTargets { create_move, present, resize_buffers })
}

} // verus!
