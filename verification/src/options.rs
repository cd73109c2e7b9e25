use vstd::prelude::*;

verus! {

use vstd::pervasive::unreached;

use crate::decode::{decode_component, decoded_text};
use crate::query::str_eq;

/// The abstract playback request: the decoded target URL and the three
/// bounded playback switches.
pub struct PlaybackRequest {
    pub url: Seq<char>,
    pub fullscreen: bool,
    pub pip: bool,
    pub enqueue: bool,
}

/// The boolean-flag rule: the query value `1` means true; `0` and every other
/// value, malformed or unexpected ones included, mean false.
pub open spec fn flag_value(s: Seq<char>) -> bool {
    s == "1"@
}

/// Player invocation options, decoded from the query of a request URL.
///
/// The stored `url` is always the target percent-decoded exactly once: it is
/// never left encoded and never decoded a second time.
#[derive(Debug, PartialEq, Eq)]
pub struct MpvOption {
    pub url: String,
    pub fullscreen: bool,
    pub pip: bool,
    pub enqueue: bool,
}

impl View for MpvOption {
    type V = PlaybackRequest;

    open spec fn view(&self) -> PlaybackRequest {
        PlaybackRequest {
            url: self.url@,
            fullscreen: self.fullscreen,
            pip: self.pip,
            enqueue: self.enqueue,
        }
    }
}

/// The ordered argument list synthesized from a request: the fullscreen flag
/// when set, then the four picture-in-picture window flags when set, in their
/// fixed order, and the target URL as the last and only positional argument.
pub open spec fn spec_args(r: PlaybackRequest) -> Seq<Seq<char>> {
    (if r.fullscreen {
        seq!["--fs"@]
    } else {
        Seq::<Seq<char>>::empty()
    }) + (if r.pip {
        seq!["--ontop"@, "--no-border"@, "--autofit=384x216"@, "--geometry=98%:98%"@]
    } else {
        Seq::<Seq<char>>::empty()
    }) + seq![r.url]
}

impl MpvOption {
    /// Builds an `MpvOption` from raw query values: the url value is
    /// percent-decoded once, the three others are read under the
    /// boolean-flag rule.
    pub fn new(url: &str, fullscreen: &str, pip: &str, enqueue: &str) -> (r: Self)
        requires
            decoded_text(url@) is Some,
        ensures
            Some(r@.url) == decoded_text(url@),
            r@.fullscreen == flag_value(fullscreen@),
            r@.pip == flag_value(pip@),
            r@.enqueue == flag_value(enqueue@),
    {
        let decoded: String = match decode_component(url) {
            Some(d) => d,
            None => unreached(),
        };
        Self {
            url: decoded,
            fullscreen: flag_set(fullscreen),
            pip: flag_set(pip),
            enqueue: flag_set(enqueue),
        }
    }

    /// Builds an `MpvOption` when the url value decodes to UTF-8 text, and
    /// reports failure instead of panicking when it does not.
    pub fn try_new(url: &str, fullscreen: &str, pip: &str, enqueue: &str) -> (r: Option<Self>)
        ensures
            r is Some <==> decoded_text(url@) is Some,
            r matches Some(o) ==> Some(o@.url) == decoded_text(url@)
                && o@.fullscreen == flag_value(fullscreen@)
                && o@.pip == flag_value(pip@)
                && o@.enqueue == flag_value(enqueue@),
    {
        match decode_component(url) {
            Some(d) => Some(
                Self {
                    url: d,
                    fullscreen: flag_set(fullscreen),
                    pip: flag_set(pip),
                    enqueue: flag_set(enqueue),
                },
            ),
            None => None,
        }
    }

    /// Returns the argument list for a new mpv process: optional flags first,
    /// the target URL always last. An enqueue request adds no flag: that
    /// switch is reserved and the player is left to its default behaviour.
    pub fn build_args(self) -> (r: Vec<String>)
        ensures
            r.deep_view() == spec_args(self@),
    {
        let ghost g = self@;
        let mut ret: Vec<String> = Vec::new();
        if self.fullscreen {
            ret.push("--fs".to_owned());
        }
        if self.pip {
            ret.push("--ontop".to_owned());
            ret.push("--no-border".to_owned());
            ret.push("--autofit=384x216".to_owned());
            ret.push("--geometry=98%:98%".to_owned());
        }
        ret.push(self.url);
        proof {
            assert(ret.deep_view() =~~= spec_args(g));
        }
        ret
    }
}

/// Reads one raw query value under the boolean-flag rule.
fn flag_set(v: &str) -> (r: bool)
    ensures
        r == flag_value(v@),
{
    str_eq(v, "1")
}

/// The target URL is always the last element of the synthesized argument
/// list, whatever combination of flags is set.
pub proof fn lemma_url_is_last(r: PlaybackRequest)
    ensures
        spec_args(r).len() >= 1,
        spec_args(r).last() == r.url,
{
}

/// When picture-in-picture is set, the four window flags stand contiguously
/// and in their fixed order, preceded only by the fullscreen flag (when that
/// is set too) and followed only by the target URL.
pub proof fn lemma_pip_block(r: PlaybackRequest)
    requires
        r.pip,
    ensures
        ({
            let a = spec_args(r);
            let off: int = if r.fullscreen {
                1
            } else {
                0
            };
            &&& a.len() == off + 5
            &&& a[off] == "--ontop"@
            &&& a[off + 1] == "--no-border"@
            &&& a[off + 2] == "--autofit=384x216"@
            &&& a[off + 3] == "--geometry=98%:98%"@
            &&& a[off + 4] == r.url
            &&& (r.fullscreen ==> a[0] == "--fs"@)
        }),
{
}

} // verus!
