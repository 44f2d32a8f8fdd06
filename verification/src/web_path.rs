//! Names that come from the web: asset paths, action names, and the manifest
//! that lists a component's assets.
use vstd::prelude::*;

use crate::contract;
use crate::contract::{MAX_COMPONENT_ID_LEN, MAX_WEB_ASSET_PATH_LEN};
use crate::error::ApplicationError;
use crate::text;
use crate::text::{any_control, chars_of, contains_char};

verus! {

/// `s[i..j]` is one of the parts of `s` between slashes.
pub open spec fn is_segment(s: Seq<char>, i: int, j: int) -> bool {
    &&& 0 <= i <= j <= s.len()
    &&& i == 0 || s[i - 1] == '/'
    &&& j == s.len() || s[j] == '/'
    &&& forall|k: int| i <= k < j ==> s[k] != '/'
}

/// A segment that would be empty or climb: ``, `.` or `..`.
pub open spec fn is_bad_segment(s: Seq<char>, i: int, j: int) -> bool {
    ||| i == j
    ||| j == i + 1 && s[i] == '.'
    ||| j == i + 2 && s[i] == '.' && s[i + 1] == '.'
}

/// Some segment after the leading slash is bad.
pub open spec fn has_bad_segment(s: Seq<char>) -> bool {
    exists|i: int, j: int| i >= 1 && #[trigger] is_segment(s, i, j) && is_bad_segment(s, i, j)
}

/// Why `s` is no asset path: the first rule that it breaks.
pub open spec fn path_fault(s: Seq<char>) -> Option<&'static str> {
    if s.len() == 0 {
        Some("must not be empty")
    } else if contract::byte_len(s) > MAX_WEB_ASSET_PATH_LEN {
        Some("exceeds the maximum length")
    } else if s[0] != '/' {
        Some("must start with '/'")
    } else if s.contains('\\') {
        Some("backslash is not a valid separator")
    } else if text::has_control(s) {
        Some("must not contain control characters")
    } else if has_bad_segment(s) {
        Some("path contains an invalid segment")
    } else {
        None
    }
}

/// Why `s` is no action name: the first rule that it breaks.
pub open spec fn action_name_fault(s: Seq<char>) -> Option<&'static str> {
    if s.len() == 0 {
        Some("must not be empty")
    } else if contract::byte_len(s) > MAX_COMPONENT_ID_LEN {
        Some("exceeds the maximum length")
    } else if text::has_control(s) {
        Some("must not contain control characters")
    } else {
        None
    }
}

/// Some segment of `s` after the leading slash is bad.
fn any_bad_segment(s: &Vec<char>) -> (r: bool)
    requires
        s@.len() > 0,
        s@[0] == '/',
    ensures
        r == has_bad_segment(s@),
{
    let n: usize = s.len();
    let mut start: usize = 1;
    let mut end: usize = 1;
    loop
        invariant
            n == s@.len(),
            1 <= start <= end <= n,
            s@[start - 1] == '/',
            forall|k: int| start <= k < end ==> s@[k] != '/',
            forall|i: int, j: int|
                1 <= i < start && #[trigger] is_segment(s@, i, j) ==> !is_bad_segment(s@, i, j),
        decreases n - end,
    {
        if end == n || s[end] == '/' {
            assert(is_segment(s@, start as int, end as int));
            let len: usize = end - start;
            let bad: bool = len == 0 || (len == 1 && s[start] == '.') || (len == 2 && s[start] == '.'
                && s[start + 1] == '.');
            if bad {
                return true;
            }
            proof {
                assert forall|i: int, j: int| 1 <= i <= end && #[trigger] is_segment(s@, i, j) implies
                    !is_bad_segment(s@, i, j) by {
                    if i == start {
                        if j < end {
                            assert(s@[j] == '/');
                        }
                        if j > end {
                            assert(s@[end as int] == '/');
                        }
                        assert(j == end);
                    } else if i > start {
                        assert(s@[i - 1] == '/');
                        assert(false);
                    }
                }
            }
            if end == n {
                assert(!has_bad_segment(s@));
                return false;
            }
            start = end + 1;
            end = end + 1;
        } else {
            end = end + 1;
        }
    }
}

/// The path of a web asset: absolute, without empty or climbing segments.
#[derive(Debug, PartialEq, Eq, PartialOrd, Ord, Hash)]
pub struct WebAssetPath {
    text: String,
}

impl WebAssetPath {
    pub closed spec fn view(&self) -> Seq<char> {
        self.text@
    }

    #[verifier::type_invariant]
    spec fn inv(self) -> bool {
        path_fault(self.text@) is None
    }

    pub fn new(value: &str) -> (r: Result<WebAssetPath, ApplicationError>)
        ensures
            match path_fault(value@) {
                None => r matches Ok(p) && p@ == value@,
                Some(m) => r == Err::<WebAssetPath, ApplicationError>(
                    ApplicationError::InvalidWebAssetPath(m),
                ),
            },
    {
        let chars: Vec<char> = chars_of(value);
        if chars.len() == 0 {
            return Err(ApplicationError::InvalidWebAssetPath("must not be empty"));
        }
        if value.as_bytes().len() > MAX_WEB_ASSET_PATH_LEN {
            return Err(ApplicationError::InvalidWebAssetPath("exceeds the maximum length"));
        }
        if chars[0] != '/' {
            return Err(ApplicationError::InvalidWebAssetPath("must start with '/'"));
        }
        if contains_char(&chars, '\\') {
            return Err(ApplicationError::InvalidWebAssetPath("backslash is not a valid separator"));
        }
        if any_control(&chars) {
            return Err(ApplicationError::InvalidWebAssetPath("must not contain control characters"));
        }
        if any_bad_segment(&chars) {
            return Err(ApplicationError::InvalidWebAssetPath("path contains an invalid segment"));
        }
        Ok(WebAssetPath { text: value.to_owned() })
    }

    /// The path's text, which is always a valid path.
    pub fn as_str(&self) -> (r: &str)
        ensures
            r@ == self@,
            path_fault(self@) is None,
    {
        proof {
            use_type_invariant(self);
        }
        self.text.as_str()
    }
}

impl Clone for WebAssetPath {
    fn clone(&self) -> (r: Self)
        ensures
            r == *self,
    {
        proof {
            use_type_invariant(self);
        }
        WebAssetPath { text: self.text.clone() }
    }
}

/// The name of a backend action.
#[derive(Debug, PartialEq, Eq, Hash)]
pub struct ActionName {
    text: String,
}

impl ActionName {
    pub closed spec fn view(&self) -> Seq<char> {
        self.text@
    }

    #[verifier::type_invariant]
    spec fn inv(self) -> bool {
        action_name_fault(self.text@) is None
    }

    pub fn new(value: &str) -> (r: Result<ActionName, ApplicationError>)
        ensures
            match action_name_fault(value@) {
                None => r matches Ok(p) && p@ == value@,
                Some(m) => r == Err::<ActionName, ApplicationError>(
                    ApplicationError::InvalidActionName(m),
                ),
            },
    {
        let chars: Vec<char> = chars_of(value);
        if chars.len() == 0 {
            return Err(ApplicationError::InvalidActionName("must not be empty"));
        }
        if value.as_bytes().len() > MAX_COMPONENT_ID_LEN {
            return Err(ApplicationError::InvalidActionName("exceeds the maximum length"));
        }
        if any_control(&chars) {
            return Err(ApplicationError::InvalidActionName("must not contain control characters"));
        }
        Ok(ActionName { text: value.to_owned() })
    }

    /// The name's text, which is always a valid name.
    pub fn as_str(&self) -> (r: &str)
        ensures
            r@ == self@,
            action_name_fault(self@) is None,
    {
        proof {
            use_type_invariant(self);
        }
        self.text.as_str()
    }
}

/// Law: no segment of an asset path climbs out of the root or stays in place,
/// so a path never leaves the component's own assets.
pub proof fn law_asset_path_cannot_climb(s: Seq<char>, i: int, j: int)
    requires
        path_fault(s) is None,
        i >= 1,
        is_segment(s, i, j),
    ensures
        i < j,
        s.subrange(i, j) != "."@,
        s.subrange(i, j) != ".."@,
        !s.contains('\\'),
{
    reveal_strlit(".");
    reveal_strlit("..");
    assert(!is_bad_segment(s, i, j));
    if s.subrange(i, j) == "."@ {
        assert(s.subrange(i, j).len() == 1);
        assert(s.subrange(i, j)[0] == s[i]);
    }
    if s.subrange(i, j) == ".."@ {
        assert(s.subrange(i, j).len() == 2);
        assert(s.subrange(i, j)[0] == s[i]);
        assert(s.subrange(i, j)[1] == s[i + 1]);
    }
}

/// What a web front offers, as the host sees it.
#[derive(Debug, Clone, Copy, PartialEq, Eq, Structural)]
pub struct WebManifestFeatures {
    pub static_assets: bool,
    pub backend_actions: bool,
}

/// One asset of a manifest.
#[derive(Debug, PartialEq, Eq)]
pub struct WebAssetEntry {
    pub path: WebAssetPath,
    pub size: u64,
    pub content_type: Option<String>,
}

/// A web front: where it starts, what it offers, and its assets.
#[derive(Debug, PartialEq, Eq)]
pub struct WebManifestData {
    pub entry: WebAssetPath,
    pub features: WebManifestFeatures,
    pub assets: Vec<WebAssetEntry>,
}

/// Law: a segment is a longest run without a slash.
pub proof fn law_segments(s: Seq<char>, i: int, j: int)
    ensures
        is_segment(s, i, j) <==> {
            &&& 0 <= i <= j <= s.len()
            &&& forall|k: int| i <= k < j ==> s[k] != '/'
            &&& i > 0 ==> s[i - 1] == '/'
            &&& j < s.len() ==> s[j] == '/'
        },
{
}

/// Law: a text is taken as an asset path exactly where it begins with a slash, is
/// short enough, holds neither a backslash nor a control character, and each
/// segment after the first slash is something other than nothing, `.` and `..`.
pub proof fn law_asset_path_is_taken_where_well_formed(s: Seq<char>)
    ensures
        path_fault(s) is None <==> {
            &&& s.len() > 0 && s[0] == '/'
            &&& vstd::utf8::encode_utf8(s).len() <= 4096
            &&& forall|i: int|
                0 <= i < s.len() ==> {
                    let c = #[trigger] s[i];
                    c != '\\' && (c as u32) >= 32 && !(127 <= (c as u32) < 160)
                }
            &&& forall|i: int, j: int|
                1 <= i && #[trigger] is_segment(s, i, j) ==> {
                    &&& i < j
                    &&& j == i + 1 ==> s[i] != '.'
                    &&& j == i + 2 ==> s[i] != '.' || s[i + 1] != '.'
                }
        },
{
    if path_fault(s) is None {
        assert forall|i: int| 0 <= i < s.len() implies {
            let c = #[trigger] s[i];
            c != '\\' && (c as u32) >= 32 && !(127 <= (c as u32) < 160)
        } by {
            if s[i] == '\\' {
                assert(s.contains('\\'));
            }
            if text::is_control(s[i]) {
                assert(text::has_control(s));
            }
        }
        assert forall|i: int, j: int| 1 <= i && #[trigger] is_segment(s, i, j) implies i < j && (j == i + 1
            ==> s[i] != '.') && (j == i + 2 ==> s[i] != '.' || s[i + 1] != '.') by {
            assert(!is_bad_segment(s, i, j));
        }
    }
}

/// Law: a text that is no asset path is refused for the first rule that it breaks.
pub proof fn law_asset_path_is_refused_for_its_first_fault(s: Seq<char>)
    ensures
        s.len() == 0 ==> path_fault(s) == Some("must not be empty"),
        vstd::utf8::encode_utf8(s).len() > 4096 && s.len() > 0 ==> path_fault(s) == Some("exceeds the maximum length"),
        s.len() > 0 && vstd::utf8::encode_utf8(s).len() <= 4096 && s[0] != '/' ==> path_fault(s) == Some(
            "must start with '/'",
        ),
        s.len() > 0 && vstd::utf8::encode_utf8(s).len() <= 4096 && s[0] == '/' && s.contains('\\')
            ==> path_fault(s) == Some("backslash is not a valid separator"),
        s.len() > 0 && vstd::utf8::encode_utf8(s).len() <= 4096 && s[0] == '/' && !s.contains('\\') ==> (exists|i: int|
            0 <= i < s.len() && ((#[trigger] s[i] as u32) < 32 || 127 <= (s[i] as u32) < 160)) ==> path_fault(s)
            == Some("must not contain control characters"),
        path_fault(s) == Some("path contains an invalid segment") ==> exists|i: int, j: int|
            1 <= i && #[trigger] is_segment(s, i, j) && (i == j || s.subrange(i, j) == "."@ || s.subrange(i, j)
                == ".."@),
{
    if exists|i: int| 0 <= i < s.len() && ((#[trigger] s[i] as u32) < 32 || 127 <= (s[i] as u32) < 160) {
        let i = choose|i: int| 0 <= i < s.len() && ((#[trigger] s[i] as u32) < 32 || 127 <= (s[i] as u32) < 160);
        assert(text::is_control(s[i]));
    }
    reveal_strlit("must not be empty");
    reveal_strlit("exceeds the maximum length");
    reveal_strlit("must start with '/'");
    reveal_strlit("backslash is not a valid separator");
    reveal_strlit("must not contain control characters");
    reveal_strlit("path contains an invalid segment");
    if path_fault(s) == Some("path contains an invalid segment") {
        assert("path contains an invalid segment"@.len() == 32);
        assert(has_bad_segment(s));
        let (i, j) = choose|i: int, j: int|
            i >= 1 && #[trigger] is_segment(s, i, j) && is_bad_segment(s, i, j);
        reveal_strlit(".");
        reveal_strlit("..");
        if j == i + 1 {
            assert(s.subrange(i, j) =~= "."@);
        } else if j == i + 2 {
            assert(s.subrange(i, j) =~= ".."@);
        }
    }
}

/// Law: a text is taken as an action name exactly where it is not empty, short
/// enough and free of control characters, and is refused for the first of these
/// that fails.
pub proof fn law_action_name_is_taken_where_well_formed(s: Seq<char>)
    ensures
        action_name_fault(s) is None <==> {
            &&& s.len() > 0
            &&& vstd::utf8::encode_utf8(s).len() <= 255
            &&& forall|i: int|
                0 <= i < s.len() ==> (#[trigger] s[i] as u32) >= 32 && !(127 <= (s[i] as u32) < 160)
        },
        s.len() == 0 ==> action_name_fault(s) == Some("must not be empty"),
        s.len() > 0 && vstd::utf8::encode_utf8(s).len() > 255 ==> action_name_fault(s) == Some(
            "exceeds the maximum length",
        ),
        s.len() > 0 && vstd::utf8::encode_utf8(s).len() <= 255 && action_name_fault(s) is Some
            ==> action_name_fault(s) == Some("must not contain control characters"),
{
    if action_name_fault(s) is None {
        assert forall|i: int| 0 <= i < s.len() implies (#[trigger] s[i] as u32) >= 32 && !(127 <= (s[i] as u32)
            < 160) by {
            if text::is_control(s[i]) {
                assert(text::has_control(s));
            }
        }
    }
}

} // verus!
