//! The request side of the scrobbling service: signing, query strings, form
//! bodies for each call, and reading the replies.
use vstd::prelude::*;
use vstd::string::*;
use vstd::utf8::*;

use crate::params::{
    keys_distinct, lemma_insertion_order_irrelevant, map_of, ordered_entries, text_pairs, Entry,
    Params,
};
use crate::text::{decimal, decimal_text, hex_digest, is_lower_hex_digit, lower_hex, opt_text, push_char, text_eq};
use crate::uri::{percent_encode, percent_encoding_of};

verus! {

/// The single endpoint of the service.
pub const API_ROOT: &'static str = "https://ws.audioscrobbler.com/2.0";

/// The 16-byte MD5 digest of a byte string.
pub uninterp spec fn md5_digest(data: Seq<u8>) -> Seq<u8>;

/// Relies on `md5::compute`: the MD5 digest of the bytes, as its 16 bytes.
#[verifier::external_body]
fn md5_of(data: &[u8]) -> (digest: [u8; 16])
    ensures
        digest@ == md5_digest(data@),
{
    md5::compute(data).0
}

/// Each name immediately followed by its value, in the given order.
pub open spec fn concat_entries(s: Seq<Entry>) -> Seq<char>
    decreases s.len(),
{
    if s.len() == 0 {
        seq![]
    } else {
        concat_entries(s.drop_last()) + s.last().0 + s.last().1
    }
}

/// The text that is signed: names and values in ascending name order, then
/// the shared secret.
pub open spec fn signing_string(m: Map<Seq<char>, Seq<char>>, secret: Seq<char>) -> Seq<char> {
    concat_entries(ordered_entries(m)) + secret
}

/// The request signature: the lowercase hex MD5 of the signed text's UTF-8 bytes.
pub open spec fn api_signature(m: Map<Seq<char>, Seq<char>>, secret: Seq<char>) -> Seq<char> {
    lower_hex(md5_digest(encode_utf8(signing_string(m, secret))))
}

/// `name=value`, both percent-encoded.
pub open spec fn query_pair(e: Entry) -> Seq<char> {
    percent_encoding_of(e.0) + seq!['='] + percent_encoding_of(e.1)
}

/// The encoded pairs joined by `&`.
pub open spec fn query_string(s: Seq<Entry>) -> Seq<char>
    decreases s.len(),
{
    if s.len() == 0 {
        seq![]
    } else if s.len() == 1 {
        query_pair(s[0])
    } else {
        query_string(s.drop_last()) + seq!['&'] + query_pair(s.last())
    }
}

/// The GET address for a parameter set: the endpoint, the parameters in
/// ascending name order, the signature if one is given, then `format=json`.
pub open spec fn param_uri(m: Map<Seq<char>, Seq<char>>, sig: Option<Seq<char>>) -> Seq<char> {
    let signed = match sig {
        Some(s) => "&api_sig="@ + s,
        None => Seq::<char>::empty(),
    };
    API_ROOT@ + "/?"@ + query_string(ordered_entries(m)) + signed + "&format=json"@
}

/// The signed text for `params` and `secret`.
pub fn signing_text(params: &Params, secret: &str) -> (r: String)
    ensures
        r@ == signing_string(params@, secret@),
{
    let entries = params.sorted_entries();
    let ghost s = text_pairs(entries@);
    let mut r = String::new();
    let mut i: usize = 0;
    while i < entries.len()
        invariant
            s == text_pairs(entries@),
            s == ordered_entries(params@),
            i <= entries@.len(),
            r@ == concat_entries(s.take(i as int)),
        decreases entries@.len() - i,
    {
        r.append(entries[i].0.as_str());
        r.append(entries[i].1.as_str());
        assert(s.take(i + 1).drop_last() =~= s.take(i as int));
        assert(r@ =~= concat_entries(s.take(i + 1)));
        i += 1;
    }
    assert(s.take(i as int) =~= s);
    r.append(secret);
    r
}

/// Signs a parameter set with the shared secret.
pub fn create_api_sig(params: &Params, secret: &str) -> (sig: String)
    ensures
        sig@ == api_signature(params@, secret@),
        sig@.len() == 32,
        forall|i: int| 0 <= i < 32 ==> is_lower_hex_digit(#[trigger] sig@[i]),
{
    let text = signing_text(params, secret);
    let digest = md5_of(text.as_str().as_bytes());
    hex_digest(digest.as_slice())
}

/// The GET address for `params`, with `sig` as `api_sig` when given.
pub fn create_param_uri(params: &Params, sig: Option<String>) -> (uri: String)
    ensures
        uri@ == param_uri(params@, match sig {
            Some(s) => Some(s@),
            None => None,
        }),
{
    let entries = params.sorted_entries();
    let ghost s = text_pairs(entries@);
    let mut q = String::new();
    let mut i: usize = 0;
    while i < entries.len()
        invariant
            s == text_pairs(entries@),
            i <= entries@.len(),
            q@ == query_string(s.take(i as int)),
        decreases entries@.len() - i,
    {
        if i != 0 {
            push_char(&mut q, '&');
        }
        let name = percent_encode(entries[i].0.as_str());
        let value = percent_encode(entries[i].1.as_str());
        q.append(name.as_str());
        push_char(&mut q, '=');
        q.append(value.as_str());
        assert(s.take(i + 1).drop_last() =~= s.take(i as int));
        assert(s.take(i + 1).last() == s[i as int]);
        assert(q@ =~= query_string(s.take(i + 1)));
        i += 1;
    }
    assert(s.take(i as int) =~= s);
    let mut uri = String::new();
    uri.append(API_ROOT);
    uri.append("/?");
    uri.append(q.as_str());
    match sig {
        Some(sig) => {
            uri.append("&api_sig=");
            uri.append(sig.as_str());
        },
        None => {},
    }
    uri.append("&format=json");
    uri
}

/// Signing the same name/value pairs gives the same signature whatever the
/// order in which they were inserted.
pub proof fn lemma_signature_ignores_insertion_order(
    a: Seq<Entry>,
    b: Seq<Entry>,
    secret: Seq<char>,
)
    requires
        keys_distinct(a),
        keys_distinct(b),
        forall|e: Entry| a.contains(e) <==> b.contains(e),
    ensures
        signing_string(map_of(a), secret) == signing_string(map_of(b), secret),
        api_signature(map_of(a), secret) == api_signature(map_of(b), secret),
{
    lemma_insertion_order_irrelevant(a, b);
}

/// The credentials every authenticated call carries.
pub struct LastFmCreds {
    pub api_key: String,
    pub api_secret: String,
    pub session_token: String,
}

/// A reply that never reached the caller as a success.
pub struct ScrobbleError;

/// Adds the album to a parameter mapping when one is known.
pub open spec fn with_album(m: Map<Seq<char>, Seq<char>>, album: Option<Seq<char>>) -> Map<
    Seq<char>,
    Seq<char>,
> {
    match album {
        Some(a) => m.insert("album"@, a),
        None => m,
    }
}

/// Parameters of a "now playing" update.
pub open spec fn now_playing_map(
    api_key: Seq<char>,
    session: Seq<char>,
    artist: Seq<char>,
    track: Seq<char>,
    album: Option<Seq<char>>,
) -> Map<Seq<char>, Seq<char>> {
    with_album(
        Map::empty().insert("method"@, "track.updateNowPlaying"@).insert("artist"@, artist).insert(
            "track"@,
            track,
        ).insert("api_key"@, api_key).insert("sk"@, session),
        album,
    )
}

/// Parameters of a scrobble submission; `timestamp` is in Unix seconds.
pub open spec fn scrobble_map(
    api_key: Seq<char>,
    session: Seq<char>,
    artist: Seq<char>,
    track: Seq<char>,
    timestamp: nat,
    album: Option<Seq<char>>,
) -> Map<Seq<char>, Seq<char>> {
    with_album(
        Map::empty().insert("method"@, "track.scrobble"@).insert("artist"@, artist).insert(
            "track"@,
            track,
        ).insert("timestamp"@, decimal(timestamp)).insert("api_key"@, api_key).insert(
            "sk"@,
            session,
        ),
        album,
    )
}

/// Parameters of a track lookup.
pub open spec fn track_info_map(api_key: Seq<char>, artist: Seq<char>, track: Seq<char>) -> Map<
    Seq<char>,
    Seq<char>,
> {
    Map::empty().insert("method"@, "track.getInfo"@).insert("artist"@, artist).insert(
        "track"@,
        track,
    ).insert("api_key"@, api_key).insert("format"@, "json"@)
}

/// Parameters of the password-based session request.
pub open spec fn session_map(api_key: Seq<char>, username: Seq<char>, password: Seq<char>) -> Map<
    Seq<char>,
    Seq<char>,
> {
    Map::empty().insert("method"@, "auth.getMobileSession"@).insert("api_key"@, api_key).insert(
        "password"@,
        password,
    ).insert("username"@, username)
}

/// A signed form body: the parameters in ascending name order, then
/// `format=json` and the signature.
pub open spec fn signed_form_entries(m: Map<Seq<char>, Seq<char>>, secret: Seq<char>) -> Seq<
    Entry,
> {
    ordered_entries(m) + seq![("format"@, "json"@), ("api_sig"@, api_signature(m, secret))]
}

/// The form body of a signed POST for `params`.
pub fn signed_form(params: &Params, secret: &str) -> (form: Vec<(String, String)>)
    ensures
        text_pairs(form@) == signed_form_entries(params@, secret@),
{
    let sig = create_api_sig(params, secret);
    let mut form = params.sorted_entries();
    form.push(("format".to_owned(), "json".to_owned()));
    form.push(("api_sig".to_owned(), sig));
    assert(text_pairs(form@) =~= signed_form_entries(params@, secret@));
    form
}

/// The signed form of the session request made with the account password.
pub fn session_request_form(api_key: &str, username: &str, password: &str, secret: &str) -> (form:
    Vec<(String, String)>)
    ensures
        text_pairs(form@) == signed_form_entries(
            session_map(api_key@, username@, password@),
            secret@,
        ),
{
    let mut params = Params::new();
    params.insert("method", "auth.getMobileSession");
    params.insert("api_key", api_key);
    params.insert("password", password);
    params.insert("username", username);
    signed_form(&params, secret)
}

impl LastFmCreds {
    /// The signed form of a "now playing" update.
    pub fn now_playing_form(&self, artist: &str, track: &str, album: Option<&str>) -> (form: Vec<
        (String, String),
    >)
        ensures
            text_pairs(form@) == signed_form_entries(
                now_playing_map(
                    self.api_key@,
                    self.session_token@,
                    artist@,
                    track@,
                    opt_text(album),
                ),
                self.api_secret@,
            ),
    {
        let mut params = Params::new();
        params.insert("method", "track.updateNowPlaying");
        params.insert("artist", artist);
        params.insert("track", track);
        params.insert("api_key", self.api_key.as_str());
        params.insert("sk", self.session_token.as_str());
        if let Some(album) = album {
            params.insert("album", album);
        }
        signed_form(&params, self.api_secret.as_str())
    }

    /// The signed form of a scrobble; `timestamp` is in Unix seconds.
    pub fn scrobble_form(&self, artist: &str, track: &str, timestamp: u64, album: Option<&str>) -> (form:
        Vec<(String, String)>)
        ensures
            text_pairs(form@) == signed_form_entries(
                scrobble_map(
                    self.api_key@,
                    self.session_token@,
                    artist@,
                    track@,
                    timestamp as nat,
                    opt_text(album),
                ),
                self.api_secret@,
            ),
    {
        let timestamp_text = decimal_text(timestamp);
        let mut params = Params::new();
        params.insert("method", "track.scrobble");
        params.insert("artist", artist);
        params.insert("track", track);
        params.insert("timestamp", timestamp_text.as_str());
        params.insert("api_key", self.api_key.as_str());
        params.insert("sk", self.session_token.as_str());
        if let Some(album) = album {
            params.insert("album", album);
        }
        signed_form(&params, self.api_secret.as_str())
    }

    /// The unsigned GET address of a track lookup.
    pub fn track_info_uri(&self, artist: &str, track: &str) -> (uri: String)
        ensures
            uri@ == param_uri(track_info_map(self.api_key@, artist@, track@), None),
    {
        let mut params = Params::new();
        params.insert("method", "track.getInfo");
        params.insert("artist", artist);
        params.insert("track", track);
        params.insert("api_key", self.api_key.as_str());
        params.insert("format", "json");
        create_param_uri(&params, None)
    }
}

/// What a track lookup tells of a track.
#[derive(Debug)]
pub struct TrackInfo {
    pub name: String,
    pub artist: ArtistInfo,
    pub album: AlbumInfo,
}

#[derive(Debug)]
pub struct ArtistInfo {
    pub name: String,
}

#[derive(Debug)]
pub struct AlbumInfo {
    pub artist: String,
    pub title: String,
    pub images: Vec<ImageInfo>,
}

/// One cover image: its size class (such as `large`) and its address.
#[derive(Debug)]
pub struct ImageInfo {
    pub size: String,
    pub url: String,
}

/// The address of the first image of size class `large`, or empty if none.
pub open spec fn large_image(images: Seq<ImageInfo>) -> Seq<char>
    decreases images.len(),
{
    if images.len() == 0 {
        Seq::empty()
    } else if images[0].size@ == "large"@ {
        images[0].url@
    } else {
        large_image(images.drop_first())
    }
}

impl TrackInfo {
    /// The cover to show for this track: its album's first `large` image,
    /// or an empty address if there is none.
    pub fn large_image_url(&self) -> (url: String)
        ensures
            url@ == large_image(self.album.images@),
    {
        let images = &self.album.images;
        let mut i: usize = 0;
        assert(images@.skip(0) =~= images@);
        while i < images.len()
            invariant
                images@ == self.album.images@,
                i <= images@.len(),
                large_image(images@) == large_image(images@.skip(i as int)),
            decreases images@.len() - i,
        {
            assert(images@.skip(i as int)[0] == images@[i as int]);
            if text_eq(images[i].size.as_str(), "large") {
                let url = images[i].url.clone();
                assert(large_image(images@.skip(i as int)) == images@[i as int].url@);
                return url;
            }
            assert(images@.skip(i as int).drop_first() =~= images@.skip(i + 1));
            i += 1;
        }
        String::new()
    }
}

/// Whether an HTTP status is a client or server error (400 to 599).
pub fn is_error_status(status: u16) -> (r: bool)
    ensures
        r == (400 <= status <= 599),
{
    400 <= status && status <= 599
}

} // verus!
