//! The hint codec: decoding and encoding the optional wire dictionary that a
//! notification request carries, and classifying image references.
//!
//! The wire protocol transports hints as a string-keyed dictionary of
//! type-erased variants. [`WireValue`] models the shapes the codec reads: a
//! string, the raw-image tuple `(width, height, rowstride, has_alpha,
//! bits_per_sample, channels, bytes)`, or an unrecognized payload that is
//! carried through untouched.
use vstd::prelude::*;

use crate::error::ProtocolError;
use crate::text;

verus! {

/// A hint value as it arrives from the wire, already sorted by shape.
#[derive(Debug)]
pub enum WireValue {
    /// A plain string variant.
    Str(String),
    /// The raw-image tuple: width, height, rowstride, has_alpha,
    /// bits_per_sample, channels, pixel bytes.
    Image {
        width: i32,
        height: i32,
        rowstride: i32,
        has_alpha: bool,
        bits_per_sample: i32,
        channels: i32,
        data: Vec<u8>,
    },
    /// Any variant of a shape the codec does not recognize.
    Other,
}

/// One key/value pair of the wire dictionary.
#[derive(Debug)]
pub struct HintEntry {
    pub key: String,
    pub value: WireValue,
}

/// The wire hint dictionary, in wire order.
pub type HintMap = Vec<HintEntry>;

/// The mathematical value of a [`WireValue`].
#[verifier::ext_equal]
pub enum WireValueV {
    Str(Seq<char>),
    Image {
        width: int,
        height: int,
        rowstride: int,
        has_alpha: bool,
        bits_per_sample: int,
        channels: int,
        data: Seq<u8>,
    },
    Other,
}

impl View for WireValue {
    type V = WireValueV;

    open spec fn view(&self) -> WireValueV {
        match self {
            WireValue::Str(s) => WireValueV::Str(s@),
            WireValue::Image { width, height, rowstride, has_alpha, bits_per_sample, channels, data } => WireValueV::Image {
                width: *width as int,
                height: *height as int,
                rowstride: *rowstride as int,
                has_alpha: *has_alpha,
                bits_per_sample: *bits_per_sample as int,
                channels: *channels as int,
                data: data@,
            },
            WireValue::Other => WireValueV::Other,
        }
    }
}

impl View for HintEntry {
    type V = (Seq<char>, WireValueV);

    open spec fn view(&self) -> (Seq<char>, WireValueV) {
        (self.key@, self.value@)
    }
}

/// The mathematical value of a hint dictionary: its entries' views, in order.
pub open spec fn kv(entries: Seq<HintEntry>) -> Seq<(Seq<char>, WireValueV)> {
    entries.map_values(|e: HintEntry| e@)
}

/// The value under the first entry whose key is `key`, if any.
pub open spec fn spec_lookup(entries: Seq<(Seq<char>, WireValueV)>, key: Seq<char>) -> Option<
    WireValueV,
>
    decreases entries.len(),
{
    if entries.len() == 0 {
        None
    } else if entries[0].0 == key {
        Some(entries[0].1)
    } else {
        spec_lookup(entries.drop_first(), key)
    }
}

/// An image reference attached to a notification: an inline bitmap, a URL
/// (`file://` ones included), or the name of an icon in the desktop's theme.
#[derive(Debug, Clone)]
pub enum ImageRef {
    /// An inline bitmap. The rowstride and channel count of the wire tuple
    /// are not kept: encoding recomputes them.
    Image { width: i32, height: i32, has_alpha: bool, bits_per_sample: i32, image_data: Vec<u8> },
    /// A URL, either as given or derived from a canonicalized file path.
    Url(String),
    /// The name of an icon in a desktop icon theme.
    IconName(String),
}

/// The mathematical value of an [`ImageRef`].
#[verifier::ext_equal]
pub enum ImageRefV {
    Image { width: int, height: int, has_alpha: bool, bits_per_sample: int, image_data: Seq<u8> },
    Url(Seq<char>),
    IconName(Seq<char>),
}

impl View for ImageRef {
    type V = ImageRefV;

    open spec fn view(&self) -> ImageRefV {
        match self {
            ImageRef::Image { width, height, has_alpha, bits_per_sample, image_data } => ImageRefV::Image {
                width: *width as int,
                height: *height as int,
                has_alpha: *has_alpha,
                bits_per_sample: *bits_per_sample as int,
                image_data: image_data@,
            },
            ImageRef::Url(u) => ImageRefV::Url(u@),
            ImageRef::IconName(n) => ImageRefV::IconName(n@),
        }
    }
}

/// How many color channels an image with or without an alpha channel has.
pub open spec fn channel_count(has_alpha: bool) -> int {
    if has_alpha {
        4
    } else {
        3
    }
}

impl ImageRef {
    /// An inline bitmap is well formed when its dimensions are non-negative,
    /// the recomputed rowstride fits the wire's signed 32-bit field, and the
    /// pixel bytes agree with `width * height * channels` samples of
    /// `bits_per_sample` bits each. Other references are always well formed.
    pub open spec fn wf(&self) -> bool {
        match self {
            ImageRef::Image { width, height, has_alpha, bits_per_sample, image_data } => {
                &&& 0 <= *width
                &&& 0 <= *height
                &&& 0 <= *bits_per_sample
                &&& (*width as int) * (*bits_per_sample as int) <= i32::MAX as int
                &&& 8 * image_data@.len() == (*width as int) * (*height as int) * channel_count(
                    *has_alpha,
                ) * (*bits_per_sample as int)
            },
            _ => true,
        }
    }
}

/// The hints a notification keeps after decoding: at most one image.
#[derive(Debug)]
pub struct Hints {
    pub image: Option<ImageRef>,
}

impl View for Hints {
    type V = Option<ImageRefV>;

    open spec fn view(&self) -> Option<ImageRefV> {
        match self.image {
            Some(i) => Some(i@),
            None => None,
        }
    }
}

impl Hints {
    pub open spec fn wf(&self) -> bool {
        match self.image {
            Some(i) => i.wf(),
            None => true,
        }
    }
}

/// How a plain string classifies as an image reference.
#[derive(Clone, Copy, Debug, PartialEq, Eq, Structural)]
pub enum RefClass {
    /// Contains `://`: taken as a URL.
    UrlLike,
    /// Contains `.` or `/` (and no `://`): taken as a filesystem path.
    PathLike,
    /// Anything else: taken as a theme icon name.
    NameLike,
}

/// The URL marker `://`.
pub open spec fn url_marker() -> Seq<char> {
    seq![':', '/', '/']
}

/// Classification of a string as URL, path, or icon name.
pub open spec fn spec_classify(s: Seq<char>) -> RefClass {
    if text::contains_seq(s, url_marker()) {
        RefClass::UrlLike
    } else if s.contains('.') || s.contains('/') {
        RefClass::PathLike
    } else {
        RefClass::NameLike
    }
}

/// Classifies a string as a URL, a filesystem path, or an icon name.
pub fn classify(s: &str) -> (c: RefClass)
    ensures
        c == spec_classify(s@),
{
    proof {
        reveal_strlit("://");
        assert("://"@ =~= url_marker());
    }
    if text::contains_substr(s, "://") {
        RefClass::UrlLike
    } else if text::contains_char(s, '.') || text::contains_char(s, '/') {
        RefClass::PathLike
    } else {
        RefClass::NameLike
    }
}

/// What `url::Url::parse` makes of a string: `Some` of the normalized
/// serialization when the string parses as a URL, `None` when it does not.
pub uninterp spec fn normalized_url_of(s: Seq<char>) -> Option<Seq<char>>;

/// Relies on `url::Url::parse`: whether a string parses as an absolute URL,
/// and the normalized serialization when it does, depend on the string alone.
#[verifier::external_body]
fn normalize_url(s: &str) -> (r: Option<String>)
    ensures
        r is Some <==> normalized_url_of(s@) is Some,
        r matches Some(u) ==> normalized_url_of(s@) == Some(u@),
{
    match url::Url::parse(s) {
        Ok(u) => Some(String::from(u)),
        Err(_) => None,
    }
}

/// What `url::Url::from_file_path` returns for an absolute path: its
/// percent-encoded `file://` URL.
pub uninterp spec fn file_url_of(path: Seq<char>) -> Seq<char>;

/// Relies on `url::Url::from_file_path`: an absolute path (one that starts
/// with `/`) converts to its `file://` URL, a function of the path alone;
/// a relative path is refused.
#[verifier::external_body]
pub(crate) fn file_url_from_path(path: &str) -> (r: Option<String>)
    requires
        path@.len() < 0x10000000,
    ensures
        r is Some <==> (path@.len() > 0 && path@[0] == '/'),
        r matches Some(u) ==> u@ == file_url_of(path@),
{
    match url::Url::from_file_path(std::path::Path::new(path)) {
        Ok(u) => Some(String::from(u)),
        Err(()) => None,
    }
}

/// The view of an optional borrowed string.
pub open spec fn opt_str_view(o: Option<&str>) -> Option<Seq<char>> {
    match o {
        Some(s) => Some(s@),
        None => None,
    }
}

/// What parsing a string into an image reference yields. `canonical` is the
/// canonicalized absolute form of the string when it is path-like; a path
/// that has no canonical absolute form cannot be resolved.
pub open spec fn spec_parse_image_ref(s: Seq<char>, canonical: Option<Seq<char>>) -> Result<
    ImageRefV,
    ProtocolError,
> {
    match spec_classify(s) {
        RefClass::UrlLike => Ok(
            ImageRefV::Url(
                match normalized_url_of(s) {
                    Some(n) => n,
                    None => s,
                },
            ),
        ),
        RefClass::NameLike => Ok(ImageRefV::IconName(s)),
        RefClass::PathLike => match canonical {
            Some(p) => if p.len() > 0 && p[0] == '/' {
                Ok(ImageRefV::Url(file_url_of(p)))
            } else {
                Err(ProtocolError::InvalidResource)
            },
            None => Err(ProtocolError::InvalidResource),
        },
    }
}

/// The view of a parse result.
pub open spec fn parse_result_view(r: Result<ImageRef, ProtocolError>) -> Result<
    ImageRefV,
    ProtocolError,
> {
    match r {
        Ok(i) => Ok(i@),
        Err(e) => Err(e),
    }
}

impl ImageRef {
    /// Parses a plain string into an image reference. A string with `://` is
    /// a URL (kept as given when the `url` crate refuses it, since resolution
    /// failures surface at load time, not at parse time); one with `.` or `/`
    /// is a filesystem path, converted to a `file://` URL of its canonical
    /// absolute form; anything else is an icon name, which never fails.
    ///
    /// `canonical` hands in the canonicalized absolute form of `s`, which
    /// only a caller with filesystem access can compute; it is consulted only
    /// when `s` is path-like, and `None` then means the path could not be
    /// resolved.
    pub fn parse(s: &str, canonical: Option<&str>) -> (r: Result<ImageRef, ProtocolError>)
        requires
            canonical matches Some(p) ==> p@.len() < 0x10000000,
        ensures
            parse_result_view(r) == spec_parse_image_ref(s@, opt_str_view(canonical)),
    {
        match classify(s) {
            RefClass::UrlLike => match normalize_url(s) {
                Some(u) => Ok(ImageRef::Url(u)),
                None => Ok(ImageRef::Url(s.to_owned())),
            },
            RefClass::NameLike => Ok(ImageRef::IconName(s.to_owned())),
            RefClass::PathLike => match canonical {
                Some(p) => match file_url_from_path(p) {
                    Some(u) => Ok(ImageRef::Url(u)),
                    None => Err(ProtocolError::InvalidResource),
                },
                None => Err(ProtocolError::InvalidResource),
            },
        }
    }
}

/// Looking a key up finds the first entry that carries it.
proof fn lemma_lookup_first(entries: Seq<(Seq<char>, WireValueV)>, key: Seq<char>, i: int)
    requires
        0 <= i < entries.len(),
        entries[i].0 == key,
        forall|j: int| 0 <= j < i ==> entries[j].0 != key,
    ensures
        spec_lookup(entries, key) == Some(entries[i].1),
    decreases i,
{
    if i > 0 {
        lemma_lookup_first(entries.drop_first(), key, i - 1);
    }
}

/// A key that no entry carries looks up to nothing.
proof fn lemma_lookup_none(entries: Seq<(Seq<char>, WireValueV)>, key: Seq<char>)
    requires
        forall|j: int| 0 <= j < entries.len() ==> entries[j].0 != key,
    ensures
        spec_lookup(entries, key) is None,
    decreases entries.len(),
{
    if entries.len() > 0 {
        lemma_lookup_none(entries.drop_first(), key);
    }
}

/// Removing an entry with one key leaves lookups of every other key alone.
proof fn lemma_lookup_remove_other(
    entries: Seq<(Seq<char>, WireValueV)>,
    i: int,
    key2: Seq<char>,
)
    requires
        0 <= i < entries.len(),
        entries[i].0 != key2,
    ensures
        spec_lookup(entries.remove(i), key2) == spec_lookup(entries, key2),
    decreases i,
{
    if i == 0 {
        assert(entries.remove(0) =~= entries.drop_first());
    } else {
        assert(entries.remove(i).drop_first() =~= entries.drop_first().remove(i - 1));
        lemma_lookup_remove_other(entries.drop_first(), i - 1, key2);
        assert(entries.remove(i)[0] == entries[0]);
    }
}

/// The value under `key`, borrowed, if any entry carries that key.
fn get<'a>(map: &'a HintMap, key: &str) -> (r: Option<&'a WireValue>)
    ensures
        r matches Some(v) ==> spec_lookup(kv(map@), key@) == Some(v@),
        r is None ==> spec_lookup(kv(map@), key@) is None,
{
    let n = map.len();
    let mut i: usize = 0;
    while i < n
        invariant
            n == map@.len(),
            i <= n,
            forall|j: int| 0 <= j < i ==> kv(map@)[j].0 != key@,
        decreases n - i,
    {
        if text::str_eq(map[i].key.as_str(), key) {
            proof {
                assert(kv(map@)[i as int].0 == key@);
                lemma_lookup_first(kv(map@), key@, i as int);
            }
            return Some(&map[i].value);
        }
        assert(kv(map@)[i as int].0 != key@);
        i = i + 1;
    }
    proof {
        lemma_lookup_none(kv(map@), key@);
    }
    None
}

/// Removes the first entry under `key` from the working map and hands its
/// value out; entries under every other key keep their lookups.
fn take(map: &mut HintMap, key: &str) -> (r: Option<WireValue>)
    ensures
        r matches Some(v) ==> spec_lookup(kv(old(map)@), key@) == Some(v@),
        r is None ==> (spec_lookup(kv(old(map)@), key@) is None && final(map)@ == old(map)@),
        forall|k2: Seq<char>|
            k2 != key@ ==> spec_lookup(kv(final(map)@), k2) == spec_lookup(kv(old(map)@), k2),
{
    let n = map.len();
    let mut i: usize = 0;
    while i < n
        invariant
            n == map@.len(),
            i <= n,
            map@ == old(map)@,
            forall|j: int| 0 <= j < i ==> kv(map@)[j].0 != key@,
        decreases n - i,
    {
        if text::str_eq(map[i].key.as_str(), key) {
            proof {
                assert(kv(map@)[i as int].0 == key@);
                lemma_lookup_first(kv(map@), key@, i as int);
            }
            let e = map.remove(i);
            proof {
                assert(kv(final(map)@) =~= kv(old(map)@).remove(i as int));
                assert forall|k2: Seq<char>| k2 != key@ implies spec_lookup(
                    kv(final(map)@),
                    k2,
                ) == spec_lookup(kv(old(map)@), k2) by {
                    lemma_lookup_remove_other(kv(old(map)@), i as int, k2);
                }
            }
            return Some(e.value);
        }
        assert(kv(map@)[i as int].0 != key@);
        i = i + 1;
    }
    proof {
        lemma_lookup_none(kv(map@), key@);
    }
    None
}

/// The view of an optional image reference.
pub open spec fn opt_image_view(o: Option<ImageRef>) -> Option<ImageRefV> {
    match o {
        Some(i) => Some(i@),
        None => None,
    }
}

/// What an `image-path` hint contributes: the parsed reference, or, when a
/// path-like string cannot be resolved, nothing — the image decided so far
/// stands, since a hint that fails to resolve degrades instead of failing
/// the call.
pub open spec fn path_hint_image(
    s: Seq<char>,
    canonical: Option<Seq<char>>,
    prev: Option<ImageRefV>,
) -> Option<ImageRefV> {
    match spec_parse_image_ref(s, canonical) {
        Ok(i) => Some(i),
        Err(_) => prev,
    }
}

/// What a raw-image hint (`image-data`, or the deprecated `icon_data`)
/// contributes: a present key must hold the raw-image tuple, which overwrites
/// the image decided so far; any other shape fails the decode.
pub open spec fn apply_image_tuple(v: Option<WireValueV>, prev: Option<ImageRefV>) -> Result<
    Option<ImageRefV>,
    ProtocolError,
> {
    match v {
        None => Ok(prev),
        Some(
            WireValueV::Image { width, height, rowstride, has_alpha, bits_per_sample, channels, data },
        ) => Ok(
            Some(ImageRefV::Image { width, height, has_alpha, bits_per_sample, image_data: data }),
        ),
        Some(_) => Err(ProtocolError::MalformedHint),
    }
}

/// What an `image-path` hint does to the decode: a present key must hold a
/// string, interpreted as an image reference; any other shape fails the
/// decode.
pub open spec fn apply_image_path(
    v: Option<WireValueV>,
    canonical: Option<Seq<char>>,
    prev: Option<ImageRefV>,
) -> Result<Option<ImageRefV>, ProtocolError> {
    match v {
        None => Ok(prev),
        Some(WireValueV::Str(s)) => Ok(path_hint_image(s, canonical, prev)),
        Some(_) => Err(ProtocolError::MalformedHint),
    }
}

/// The image a wire map decodes to. The recognized keys are consulted in
/// rising precedence — the deprecated `icon_data`, then `image-path`, then
/// `image-data` — and a later key overwrites the image an earlier one decided.
pub open spec fn spec_decode_image(
    m: Seq<(Seq<char>, WireValueV)>,
    canonical: Option<Seq<char>>,
) -> Result<Option<ImageRefV>, ProtocolError> {
    match apply_image_tuple(spec_lookup(m, "icon_data"@), None) {
        Err(e) => Err(e),
        Ok(i1) => match apply_image_path(spec_lookup(m, "image-path"@), canonical, i1) {
            Err(e) => Err(e),
            Ok(i2) => apply_image_tuple(spec_lookup(m, "image-data"@), i2),
        },
    }
}

/// The three recognized keys differ pairwise.
proof fn lemma_keys_distinct()
    ensures
        "icon_data"@ != "image-path"@,
        "icon_data"@ != "image-data"@,
        "image-path"@ != "image-data"@,
{
    reveal_strlit("icon_data");
    reveal_strlit("image-path");
    reveal_strlit("image-data");
    assert("icon_data"@.len() == 9);
    assert("image-path"@.len() == 10);
    assert("image-data"@.len() == 10);
    assert("image-path"@[6] == 'p');
    assert("image-data"@[6] == 'd');
}

impl Hints {
    /// Hints with no image.
    pub fn new() -> (h: Hints)
        ensures
            h@ is None,
    {
        Hints { image: None }
    }

    /// Decodes the wire hint dictionary per [`spec_decode_image`]: recognized
    /// keys are taken out of the working map as they are consumed, in rising
    /// precedence, and each must match its expected shape or the whole decode
    /// fails; unrecognized keys are ignored, never rejected.
    ///
    /// `image_path_canonical` hands in the canonicalized absolute form of the
    /// `image-path` hint for the case that it holds a path-like string (see
    /// [`Hints::image_path_hint`]); `None` means the path could not be
    /// resolved, which degrades that one hint instead of failing the call.
    pub fn from_dbus(map: HintMap, image_path_canonical: Option<&str>) -> (r: Result<
        Hints,
        ProtocolError,
    >)
        requires
            image_path_canonical matches Some(p) ==> p@.len() < 0x10000000,
        ensures
            r matches Ok(h) ==> spec_decode_image(kv(map@), opt_str_view(image_path_canonical))
                == Ok::<Option<ImageRefV>, ProtocolError>(h@),
            r matches Err(e) ==> spec_decode_image(kv(map@), opt_str_view(image_path_canonical))
                == Err::<Option<ImageRefV>, ProtocolError>(e),
    {
        let ghost m0 = kv(map@);
        let ghost canon = opt_str_view(image_path_canonical);
        proof {
            lemma_keys_distinct();
        }
        let mut map = map;
        let mut image: Option<ImageRef> = None;

        match take(&mut map, "icon_data") {
            Some(v) => match v {
                WireValue::Image {
                    width,
                    height,
                    rowstride: _,
                    has_alpha,
                    bits_per_sample,
                    channels: _,
                    data,
                } => {
                    image = Some(
                        ImageRef::Image { width, height, has_alpha, bits_per_sample, image_data: data },
                    );
                },
                _ => {
                    return Err(ProtocolError::MalformedHint);
                },
            },
            None => {},
        }
        assert(apply_image_tuple(spec_lookup(m0, "icon_data"@), None) == Ok::<
            Option<ImageRefV>,
            ProtocolError,
        >(opt_image_view(image)));

        let ghost i1 = opt_image_view(image);
        assert(spec_lookup(kv(map@), "image-path"@) == spec_lookup(m0, "image-path"@));
        assert(spec_lookup(kv(map@), "image-data"@) == spec_lookup(m0, "image-data"@));
        let ghost m1 = kv(map@);

        match take(&mut map, "image-path") {
            Some(v) => match v {
                WireValue::Str(s) => {
                    match ImageRef::parse(s.as_str(), image_path_canonical) {
                        Ok(img) => {
                            image = Some(img);
                        },
                        Err(_) => {},
                    }
                },
                _ => {
                    return Err(ProtocolError::MalformedHint);
                },
            },
            None => {},
        }
        assert(apply_image_path(spec_lookup(m0, "image-path"@), canon, i1) == Ok::<
            Option<ImageRefV>,
            ProtocolError,
        >(opt_image_view(image)));

        assert(spec_lookup(kv(map@), "image-data"@) == spec_lookup(m1, "image-data"@));

        match take(&mut map, "image-data") {
            Some(v) => match v {
                WireValue::Image {
                    width,
                    height,
                    rowstride: _,
                    has_alpha,
                    bits_per_sample,
                    channels: _,
                    data,
                } => {
                    image = Some(
                        ImageRef::Image { width, height, has_alpha, bits_per_sample, image_data: data },
                    );
                },
                _ => {
                    return Err(ProtocolError::MalformedHint);
                },
            },
            None => {},
        }
        Ok(Hints { image })
    }

    /// The string under the `image-path` hint when it is path-like: the one
    /// string whose canonical absolute form [`Hints::from_dbus`] asks for.
    pub fn image_path_hint(map: &HintMap) -> (r: Option<String>)
        ensures
            match spec_lookup(kv(map@), "image-path"@) {
                Some(WireValueV::Str(s)) => if spec_classify(s) is PathLike {
                    r matches Some(p) && p@ == s
                } else {
                    r is None
                },
                _ => r is None,
            },
    {
        match get(map, "image-path") {
            Some(WireValue::Str(s)) => match classify(s.as_str()) {
                RefClass::PathLike => Some(s.clone()),
                _ => None,
            },
            _ => None,
        }
    }

    /// What encoding hints yields: a raw image becomes the 7-field tuple
    /// under `image-data`, with the rowstride recomputed as
    /// `width * bits_per_sample` and the channel count from the alpha flag;
    /// a URL or icon name becomes a string under `image-path`; no image,
    /// an empty map.
    pub open spec fn spec_encode(image: Option<ImageRefV>) -> Seq<(Seq<char>, WireValueV)> {
        match image {
            None => seq![],
            Some(ImageRefV::Image { width, height, has_alpha, bits_per_sample, image_data }) => seq![
                (
                    "image-data"@,
                    WireValueV::Image {
                        width,
                        height,
                        rowstride: width * bits_per_sample,
                        has_alpha,
                        bits_per_sample,
                        channels: channel_count(has_alpha),
                        data: image_data,
                    },
                ),
            ],
            Some(ImageRefV::Url(u)) => seq![("image-path"@, WireValueV::Str(u))],
            Some(ImageRefV::IconName(n)) => seq![("image-path"@, WireValueV::Str(n))],
        }
    }

    /// Encodes hints into a wire map, per [`Hints::spec_encode`]. Encoding is
    /// total on well-formed hints.
    pub fn into_dbus(self) -> (r: HintMap)
        requires
            self.wf(),
        ensures
            kv(r@) == Hints::spec_encode(self@),
    {
        let mut map: HintMap = Vec::new();
        match self.image {
            Some(ImageRef::Image { width, height, has_alpha, bits_per_sample, image_data }) => {
                let rowstride = width * bits_per_sample;
                let channels: i32 = if has_alpha {
                    4
                } else {
                    3
                };
                map.push(
                    HintEntry {
                        key: "image-data".to_owned(),
                        value: WireValue::Image {
                            width,
                            height,
                            rowstride,
                            has_alpha,
                            bits_per_sample,
                            channels,
                            data: image_data,
                        },
                    },
                );
            },
            Some(ImageRef::Url(u)) => {
                map.push(HintEntry { key: "image-path".to_owned(), value: WireValue::Str(u) });
            },
            Some(ImageRef::IconName(n)) => {
                map.push(HintEntry { key: "image-path".to_owned(), value: WireValue::Str(n) });
            },
            None => {},
        }
        proof {
            assert(kv(map@) =~= Hints::spec_encode(self@));
        }
        map
    }
}

/// Law: encoding hints that hold a raw image and then decoding the produced
/// wire map yields the same raw image, whatever canonical path the decode is
/// offered — the rowstride and channel count are recomputed on encode and
/// dropped on decode, not preserved.
pub proof fn lemma_raw_image_round_trip(image: ImageRefV, canonical: Option<Seq<char>>)
    requires
        image is Image,
    ensures
        spec_decode_image(Hints::spec_encode(Some(image)), canonical) == Ok::<
            Option<ImageRefV>,
            ProtocolError,
        >(Some(image)),
{
    lemma_keys_distinct();
    let m = Hints::spec_encode(Some(image));
    assert(m.len() == 1);
    assert(m.drop_first().len() == 0);
    assert(spec_lookup(m.drop_first(), "icon_data"@) is None);
    assert(spec_lookup(m.drop_first(), "image-path"@) is None);
    assert(m[0].0 == "image-data"@);
    assert(spec_lookup(m, "icon_data"@) is None);
    assert(spec_lookup(m, "image-path"@) is None);
    assert(spec_lookup(m, "image-data"@) == Some(m[0].1));
    assert(spec_decode_image(m, canonical) matches Ok(i) && i matches Some(x) && x =~= image);
}

/// Law: when a wire map carries both `image-path` and `image-data` and the
/// decode succeeds, the decoded image is the raw image from `image-data` —
/// the later-precedence key overwrites whatever `image-path` decided.
pub proof fn lemma_image_data_precedence(
    m: Seq<(Seq<char>, WireValueV)>,
    canonical: Option<Seq<char>>,
    h: Option<ImageRefV>,
)
    requires
        spec_lookup(m, "image-path"@) is Some,
        spec_lookup(m, "image-data"@) is Some,
        spec_decode_image(m, canonical) == Ok::<Option<ImageRefV>, ProtocolError>(h),
    ensures
        spec_lookup(m, "image-data"@) matches Some(v) && (v matches WireValueV::Image {
            width,
            height,
            has_alpha,
            bits_per_sample,
            data,
            ..
        } && h == Some(
            ImageRefV::Image { width, height, has_alpha, bits_per_sample, image_data: data },
        )),
{
}

} // verus!
