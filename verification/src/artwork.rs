//! Cover art for games: where cached images lie, which sources are asked in
//! which order, and what is taken from their answers (SteamGridDB, SearXNG).
use vstd::prelude::*;

use crate::game_sources::uri_component;
use crate::launcher::strings_view;
use crate::paths::{rfind_char, rfind_char_in};
use crate::roms::{answered, concat, first_yes};
use crate::snes9x::{path_join, path_join_of};
use crate::system_info::{decimal_of, decimal_text};
use crate::text::{
    chars_of, eq_ignore_ascii_case, eq_ignore_case_chars, slice_chars, string_of, trim, trim_chars,
    vecs_view,
};

verus! {

// ---------------------------------------------------------------------------
// The image cache
// ---------------------------------------------------------------------------

/// A name for `char::is_alphanumeric` (the Unicode `Alphabetic` or `Numeric`
/// property).
pub uninterp spec fn unicode_alphanumeric(c: char) -> bool;

/// `char::is_alphanumeric`.  Its documentation defines it as `is_alphabetic() ||
/// is_numeric()`; for an ASCII character that is exactly the letters and digits,
/// which is all that is stated beyond the name.
#[verifier::external_body]
fn is_alphanumeric(c: char) -> (r: bool)
    ensures
        r == unicode_alphanumeric(c),
        (c as u32) < 128 ==> (r <==> (('a' <= c && c <= 'z') || ('A' <= c && c <= 'Z') || ('0' <= c
            && c <= '9'))),
{
    c.is_alphanumeric()
}

/// A game's name made safe as a file name: letters, digits and `-` kept, every
/// other character replaced by `_`.
pub open spec fn safe_name(name: Seq<char>) -> Seq<char> {
    name.map_values(|c: char| if unicode_alphanumeric(c) || c == '-' { c } else { '_' })
}

/// The cache of downloaded cover images, one file per game.
pub struct ImageCache {
    pub cache_dir: String,
}

/// The cache file of a game's image with the given extension.
pub open spec fn image_path(cache_dir: Seq<char>, game_name: Seq<char>, ext: Seq<char>) -> Seq<
    char,
> {
    path_join(cache_dir, safe_name(game_name) + "."@ + ext)
}

/// The image types looked for in the cache, in order.
pub open spec fn cached_exts() -> Seq<Seq<char>> {
    seq!["png"@, "jpg"@, "jpeg"@, "webp"@]
}

pub open spec fn cached_candidates(cache_dir: Seq<char>, game_name: Seq<char>) -> Seq<Seq<char>> {
    cached_exts().map_values(|e: Seq<char>| image_path(cache_dir, game_name, e))
}

/// An optional path as a sequence of at most one path.
pub open spec fn opt_path_seq(o: Option<String>) -> Seq<Seq<char>> {
    match o {
        Some(s) => seq![s@],
        None => Seq::empty(),
    }
}

/// The extension a downloaded image is saved under: what follows the last `.` of
/// its URL, or the whole URL when it has none.
pub open spec fn url_extension(url: Seq<char>) -> Seq<char> {
    match rfind_char(url, '.') {
        Some(d) => url.subrange(d + 1, url.len() as int),
        None => url,
    }
}

pub fn extension_of_url(url: &str) -> (r: String)
    ensures
        r@ == url_extension(url@),
{
    let c = chars_of(url);
    assert(c@.subrange(0, c@.len() as int) =~= c@);
    match rfind_char_in(c.as_slice(), 0, c.len(), '.') {
        Some(d) => string_of(slice_chars(c.as_slice(), d + 1, c.len()).as_slice()),
        None => string_of(c.as_slice()),
    }
}

impl ImageCache {
    pub fn sanitize_name(&self, name: &str) -> (r: String)
        ensures
            r@ == safe_name(name@),
    {
        let c = chars_of(name);
        let mut out: Vec<char> = Vec::new();
        let mut i: usize = 0;
        while i < c.len()
            invariant
                i <= c@.len(),
                c@ == name@,
                out@ == safe_name(name@).take(i as int),
            decreases c@.len() - i,
        {
            let ch = c[i];
            if is_alphanumeric(ch) || ch == '-' {
                out.push(ch);
            } else {
                out.push('_');
            }
            assert(out@ =~= safe_name(name@).take(i + 1));
            i += 1;
        }
        assert(safe_name(name@).take(c@.len() as int) =~= safe_name(name@));
        string_of(out.as_slice())
    }

    fn image_file(&self, game_name: &str, extension: &str) -> (r: Vec<char>)
        ensures
            r@ == image_path(self.cache_dir@, game_name@, extension@),
    {
        let safe = self.sanitize_name(game_name);
        let a = concat(chars_of(safe.as_str()).as_slice(), chars_of(".").as_slice());
        let file = concat(a.as_slice(), chars_of(extension).as_slice());
        path_join_of(chars_of(self.cache_dir.as_str()).as_slice(), file.as_slice())
    }

    /// The cache file for a game's image with the given extension.
    pub fn get_image_path(&self, game_name: &str, extension: &str) -> (r: String)
        ensures
            r@ == image_path(self.cache_dir@, game_name@, extension@),
    {
        string_of(self.image_file(game_name, extension).as_slice())
    }

    /// The game's image already in the cache: the first of its `png`, `jpg`, `jpeg`,
    /// `webp` files that `is_present` reports.
    pub fn find_existing_image<F: Fn(&str) -> bool>(&self, game_name: &str, is_present: F) -> (r:
        Option<String>)
        requires
            forall|s: &str| call_requires(is_present, (s,)),
        ensures
            first_yes(cached_candidates(self.cache_dir@, game_name@), is_present, opt_path_seq(r)),
    {
        let ghost cands = cached_candidates(self.cache_dir@, game_name@);
        let mut exts: Vec<Vec<char>> = Vec::new();
        exts.push(chars_of("png"));
        exts.push(chars_of("jpg"));
        exts.push(chars_of("jpeg"));
        exts.push(chars_of("webp"));
        assert(vecs_view(exts@) =~= cached_exts());
        let mut k: usize = 0;
        while k < 4
            invariant
                k <= 4,
                exts@.len() == 4,
                vecs_view(exts@) == cached_exts(),
                cands == cached_candidates(self.cache_dir@, game_name@),
                forall|s: &str| call_requires(is_present, (s,)),
                forall|j: int| 0 <= j < k ==> answered(is_present, #[trigger] cands[j], false),
            decreases 4 - k,
        {
            let ext = string_of(exts[k].as_slice());
            let cand = string_of(self.image_file(game_name, ext.as_str()).as_slice());
            assert(cand@ == cands[k as int]);
            let found = is_present(cand.as_str());
            assert(answered(is_present, cand@, found));
            if found {
                assert(opt_path_seq(Some(cand))[0] == cands[k as int]);
                return Some(cand);
            }
            k += 1;
        }
        assert(opt_path_seq(None) =~= Seq::<Seq<char>>::empty());
        None
    }

    /// Where an image downloaded from `url` is saved for the game.
    pub fn save_path(&self, game_name: &str, url: &str) -> (r: String)
        ensures
            r@ == image_path(self.cache_dir@, game_name@, url_extension(url@)),
    {
        let ext = extension_of_url(url);
        self.get_image_path(game_name, ext.as_str())
    }
}

// ---------------------------------------------------------------------------
// Downloaded images
// ---------------------------------------------------------------------------

#[verifier::external_type_specification]
#[verifier::external_body]
pub struct ExDynamicImage(image::DynamicImage);

/// A name for what `image::load_from_memory` gives back for these bytes: the
/// decoded image, or nothing.  It guesses the format from the bytes' signature and
/// decodes them, so the result is a function of the bytes alone.
pub uninterp spec fn loaded_image(bytes: Seq<u8>) -> Option<image::DynamicImage>;

/// A name for what `DynamicImage::resize` with the triangle filter gives back: the
/// image scaled, keeping its aspect ratio, to the largest size that fits `width` by
/// `height`.  It computes the new size from the image's size and the two bounds and
/// then resamples, so the result is a function of its three arguments alone.
pub uninterp spec fn resized(img: image::DynamicImage, width: u32, height: u32) -> image::DynamicImage;

/// `image::load_from_memory`: the decoded image when the bytes hold an image in a
/// format that the crate recognises and can decode (here PNG, JPEG and WebP), and
/// nothing otherwise.
#[verifier::external_body]
fn decode_image(bytes: &[u8]) -> (r: Option<image::DynamicImage>)
    ensures
        r == loaded_image(bytes@),
{
    image::load_from_memory(bytes).ok()
}

/// `image::DynamicImage::resize` with the triangle filter.  The image is opaque to
/// the library, so its new size is not stated here; the result is named by
/// `resized`, applied to the image and the two bounds in this order.
#[verifier::external_body]
fn resize_image(img: &image::DynamicImage, width: u32, height: u32) -> (r: image::DynamicImage)
    ensures
        r == resized(*img, width, height),
{
    img.resize(width, height, image::imageops::FilterType::Triangle)
}

/// The cover made from downloaded bytes: the decoded image scaled to fit `width`
/// by `height`, or nothing when the bytes hold no image.
pub open spec fn cover_of(bytes: Seq<u8>, width: u32, height: u32) -> Option<image::DynamicImage> {
    match loaded_image(bytes) {
        Some(img) => Some(resized(img, width, height)),
        None => None,
    }
}

/// A downloaded cover made ready for the cache: decoded and scaled to fit `width`
/// by `height`; nothing when the bytes hold no image.
pub fn cover_from_bytes(bytes: &[u8], width: u32, height: u32) -> (r: Option<image::DynamicImage>)
    ensures
        r == cover_of(bytes@, width, height),
{
    match decode_image(bytes) {
        Some(img) => Some(resize_image(&img, width, height)),
        None => None,
    }
}

// ---------------------------------------------------------------------------
// Sources, in the order they are asked
// ---------------------------------------------------------------------------

/// One way of finding a game's cover image.
pub enum ImageAttempt {
    /// An image already in the cache.
    Cached,
    /// The image URL the game's source gave.
    SourceUrl { url: String },
    /// SteamGridDB, finding the game by its Steam app id.
    SgdbSteamId { appid: String },
    /// SteamGridDB, finding the game by its name.
    SgdbName,
    /// A SearXNG image search for the game's name.
    Searxng,
}

/// The Steam app id to look up: the given id trimmed, when anything is left.
pub open spec fn lookup_appid_spec(appid: Option<Seq<char>>) -> Option<Seq<char>> {
    match appid {
        Some(a) => if trim(a).len() > 0 {
            Some(trim(a))
        } else {
            None
        },
        None => None,
    }
}

pub fn lookup_appid(appid: Option<&str>) -> (r: Option<String>)
    ensures
        crate::model::opt_view(r) == lookup_appid_spec(
            match appid {
                Some(a) => Some(a@),
                None => None,
            },
        ),
{
    match appid {
        Some(a) => {
            let t = trim_chars(chars_of(a).as_slice());
            if t.len() > 0 {
                Some(string_of(t.as_slice()))
            } else {
                None
            }
        },
        None => None,
    }
}

/// The ways of finding a game's cover, in the order they are tried, each until one
/// gives an image: the cache, the source's image URL (when given), SteamGridDB by
/// Steam app id (when one is given), SteamGridDB by name, SearXNG.
pub open spec fn attempts_ok(
    source_url: Option<Seq<char>>,
    appid: Option<Seq<char>>,
    r: Seq<ImageAttempt>,
) -> bool {
    let s = if source_url is Some {
        1int
    } else {
        0int
    };
    let a = if lookup_appid_spec(appid) is Some {
        1int
    } else {
        0int
    };
    &&& r.len() == 3 + s + a
    &&& r[0] is Cached
    &&& source_url is Some ==> (r[1] matches ImageAttempt::SourceUrl { url } && url@
        == source_url->0)
    &&& lookup_appid_spec(appid) is Some ==> (r[1 + s] matches ImageAttempt::SgdbSteamId { appid: i }
        && Some(i@) == lookup_appid_spec(appid))
    &&& r[1 + s + a] is SgdbName
    &&& r[2 + s + a] is Searxng
}

pub fn image_attempts(source_url: Option<&str>, steam_appid: Option<&str>) -> (r: Vec<ImageAttempt>)
    ensures
        attempts_ok(
            match source_url {
                Some(u) => Some(u@),
                None => None,
            },
            match steam_appid {
                Some(a) => Some(a@),
                None => None,
            },
            r@,
        ),
{
    let mut r: Vec<ImageAttempt> = Vec::new();
    r.push(ImageAttempt::Cached);
    match source_url {
        Some(u) => r.push(ImageAttempt::SourceUrl { url: string_of(chars_of(u).as_slice()) }),
        None => {},
    }
    match lookup_appid(steam_appid) {
        Some(a) => r.push(ImageAttempt::SgdbSteamId { appid: a }),
        None => {},
    }
    r.push(ImageAttempt::SgdbName);
    r.push(ImageAttempt::Searxng);
    r
}

/// The query with which SearXNG is asked for a game's cover.
pub open spec fn cover_query(game_name: Seq<char>) -> Seq<char> {
    game_name + " game cover"@
}

pub fn cover_query_of(game_name: &str) -> (r: String)
    ensures
        r@ == cover_query(game_name@),
{
    string_of(concat(chars_of(game_name).as_slice(), chars_of(" game cover").as_slice()).as_slice())
}

// ---------------------------------------------------------------------------
// SteamGridDB
// ---------------------------------------------------------------------------

/// `urlencoding::encode`: every byte of the text's UTF-8 form is percent-encoded
/// with upper-case hex digits, except the ASCII letters, digits and `-`, `_`, `.`,
/// `~`, which stay as they are.  The crate's documentation says so, and its
/// source does exactly that.
#[verifier::external_body]
fn url_encode(s: &str) -> (r: String)
    ensures
        r@ == uri_component(s@),
{
    urlencoding::encode(s).into_owned()
}

/// The SteamGridDB API's address.
pub open spec fn sgdb_base() -> Seq<char> {
    "https://www.steamgriddb.com/api/v2"@
}

/// The URL that searches SteamGridDB for games by name.
pub fn sgdb_search_url(query: &str) -> (r: String)
    ensures
        r@ == sgdb_base() + "/search/autocomplete/"@ + uri_component(query@),
{
    let a = concat(
        chars_of("https://www.steamgriddb.com/api/v2").as_slice(),
        chars_of("/search/autocomplete/").as_slice(),
    );
    string_of(concat(a.as_slice(), chars_of(url_encode(query).as_str()).as_slice()).as_slice())
}

/// The URL that finds a SteamGridDB game by its Steam app id.
pub fn sgdb_steam_url(appid: &str) -> (r: String)
    ensures
        r@ == sgdb_base() + "/games/steam/"@ + trim(appid@),
{
    let a = concat(
        chars_of("https://www.steamgriddb.com/api/v2").as_slice(),
        chars_of("/games/steam/").as_slice(),
    );
    string_of(concat(a.as_slice(), trim_chars(chars_of(appid).as_slice()).as_slice()).as_slice())
}

/// The URL that lists a SteamGridDB game's grid images.
pub fn sgdb_grids_url(game_id: u64) -> (r: String)
    ensures
        r@ == sgdb_base() + "/grids/game/"@ + decimal_text(game_id as nat),
{
    let a = concat(
        chars_of("https://www.steamgriddb.com/api/v2").as_slice(),
        chars_of("/grids/game/").as_slice(),
    );
    string_of(concat(a.as_slice(), decimal_of(game_id).as_slice()).as_slice())
}

/// A game found by a SteamGridDB search.
pub struct SgdbGame {
    pub id: u64,
    pub name: String,
}

/// A grid image of a game on SteamGridDB.
pub struct GridData {
    pub url: String,
}

/// Index of the first game whose name equals `query` in any ASCII letter case.
pub open spec fn exact_match(games: Seq<SgdbGame>, query: Seq<char>) -> Option<int>
    decreases games.len(),
{
    if games.len() == 0 {
        None
    } else {
        match exact_match(games.drop_last(), query) {
            Some(i) => Some(i),
            None => if eq_ignore_ascii_case(games.last().name@, query) {
                Some(games.len() - 1)
            } else {
                None
            },
        }
    }
}

/// The SteamGridDB game a search picks: none when the search failed or found
/// nothing; else the first game named like the query (ignoring ASCII case); else
/// the first game found.
pub open spec fn picked_game(success: bool, games: Seq<SgdbGame>, query: Seq<char>) -> Option<u64> {
    if !success || games.len() == 0 {
        None
    } else {
        match exact_match(games, query) {
            Some(i) => Some(games[i].id),
            None => Some(games[0].id),
        }
    }
}

pub proof fn lemma_exact_match(games: Seq<SgdbGame>, query: Seq<char>)
    ensures
        match exact_match(games, query) {
            Some(i) => 0 <= i < games.len() && eq_ignore_ascii_case(games[i].name@, query)
                && forall|j: int| 0 <= j < i ==> !eq_ignore_ascii_case(games[j].name@, query),
            None => forall|j: int| 0 <= j < games.len() ==> !eq_ignore_ascii_case(games[j].name@, query),
        },
    decreases games.len(),
{
    if games.len() > 0 {
        lemma_exact_match(games.drop_last(), query);
        assert(forall|j: int| 0 <= j < games.len() - 1 ==> games.drop_last()[j] == games[j]);
    }
}

pub fn pick_sgdb_game(success: bool, games: &Vec<SgdbGame>, query: &str) -> (r: Option<u64>)
    ensures
        r == picked_game(success, games@, query@),
{
    if !success || games.len() == 0 {
        return None;
    }
    let q = chars_of(query);
    let mut i: usize = 0;
    while i < games.len()
        invariant
            i <= games@.len(),
            q@ == query@,
            success,
            games@.len() > 0,
            exact_match(games@.take(i as int), query@) is None,
        decreases games@.len() - i,
    {
        assert(games@.take(i + 1).drop_last() =~= games@.take(i as int));
        if eq_ignore_case_chars(chars_of(games[i].name.as_str()).as_slice(), q.as_slice()) {
            proof {
                lemma_exact_match(games@, query@);
                lemma_exact_match(games@.take(i as int), query@);
                assert(exact_match(games@.take(i + 1), query@) == Some(i as int));
                assert forall|j: int| 0 <= j < i implies !eq_ignore_ascii_case(
                    games@[j].name@,
                    query@,
                ) by {
                    assert(games@.take(i as int)[j] == games@[j]);
                }
                assert(eq_ignore_ascii_case(games@[i as int].name@, query@));
                match exact_match(games@, query@) {
                    Some(a) => {
                        if a < i {
                            assert(!eq_ignore_ascii_case(games@[a].name@, query@));
                        }
                        assert(a == i);
                    },
                    None => {
                        assert(!eq_ignore_ascii_case(games@[i as int].name@, query@));
                    },
                }
                assert(exact_match(games@, query@) == Some(i as int));
                assert(picked_game(success, games@, query@) == Some(games@[i as int].id));
            }
            return Some(games[i].id);
        }
        i += 1;
    }
    assert(games@.take(games@.len() as int) =~= games@);
    Some(games[0].id)
}

/// The SteamGridDB game found for a Steam app id: its id when the lookup succeeded.
pub fn sgdb_game_for_appid(success: bool, id: u64) -> (r: Option<u64>)
    ensures
        r == (if success {
            Some(id)
        } else {
            None
        }),
{
    if success {
        Some(id)
    } else {
        None
    }
}

/// The URL of the grid image to download: the first one listed, when the listing
/// succeeded.
pub fn first_grid_url(success: bool, images: &Vec<GridData>) -> (r: Option<String>)
    ensures
        crate::model::opt_view(r) == (if success && images@.len() > 0 {
            Some(images@[0].url@)
        } else {
            None
        }),
{
    if success && images.len() > 0 {
        Some(string_of(chars_of(images[0].url.as_str()).as_slice()))
    } else {
        None
    }
}

// ---------------------------------------------------------------------------
// SearXNG
// ---------------------------------------------------------------------------

/// Index of the first result with a non-empty image URL.
pub open spec fn first_src(results: Seq<Option<String>>) -> Option<int>
    decreases results.len(),
{
    if results.len() == 0 {
        None
    } else {
        match first_src(results.drop_last()) {
            Some(i) => Some(i),
            None => if results.last() matches Some(s) && s@.len() > 0 {
                Some(results.len() - 1)
            } else {
                None
            },
        }
    }
}

/// The image a SearXNG search gives: the first result's non-empty image URL.
pub fn first_image_src(results: &Vec<Option<String>>) -> (r: Option<String>)
    ensures
        match first_src(results@) {
            Some(i) => r matches Some(s) && results@[i] matches Some(t) && s@ == t@,
            None => r is None,
        },
{
    let mut i: usize = 0;
    while i < results.len()
        invariant
            i <= results@.len(),
            first_src(results@.take(i as int)) is None,
        decreases results@.len() - i,
    {
        assert(results@.take(i + 1).drop_last() =~= results@.take(i as int));
        match &results[i] {
            Some(s) => {
                if chars_of(s.as_str()).len() > 0 {
                    proof {
                        lemma_first_src_prefix(results@, i as int);
                    }
                    return Some(string_of(chars_of(s.as_str()).as_slice()));
                }
            },
            None => {},
        }
        i += 1;
    }
    assert(results@.take(results@.len() as int) =~= results@);
    None
}

/// When the first `i` results give no image and result `i` does, it is the first.
proof fn lemma_first_src_prefix(results: Seq<Option<String>>, i: int)
    requires
        0 <= i < results.len(),
        first_src(results.take(i)) is None,
        results[i] matches Some(s) && s@.len() > 0,
    ensures
        first_src(results) == Some(i),
    decreases results.len(),
{
    if results.len() - 1 == i {
        assert(results.drop_last() =~= results.take(i));
    } else {
        assert(results.drop_last().take(i) =~= results.take(i));
        lemma_first_src_prefix(results.drop_last(), i);
    }
}

} // verus!
