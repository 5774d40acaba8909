//! Search keys for synced-lyrics lookups (LRCLIB): cleaned titles and artists, request
//! URLs, and the choice of lyrics among the replies.

use vstd::prelude::*;
use vstd::utf8::encode_utf8;
use crate::recovery::opt_view;
use crate::text::{
    all_digits, append_chars, append_str, chars_of, collapse_double_spaces, collapse_spaces,
    find, find_seq, is_all_digits, lowercase, lowercase_chars, lower_match, remove_all_lower,
    remove_all_lowercase, split_once, split_once_seq, string_of, strip_suffix_all, sub_chars, trim,
    trim_end_in, trim_end_set, trim_end_str, trim_ws, views, match_at, decimal, decimal_chars,
};

verus! {

/// A reply of the LRCLIB API.
#[derive(Debug, Clone)]
pub struct LrcResponse {
    pub id: Option<u64>,
    pub track_name: Option<String>,
    pub artist_name: Option<String>,
    pub plain_lyrics: Option<String>,
    pub synced_lyrics: Option<String>,
    pub instrumental: Option<bool>,
}

/// The tags removed from titles before a lyrics search, in the order tried.
pub open spec fn unwanted_tags() -> Seq<Seq<char>> {
    seq![
        "[Official Music Video]"@,
        "(Official Music Video)"@,
        "[Official Video]"@,
        "(Official Video)"@,
        "[Official MV]"@,
        "(Official MV)"@,
        "[Official Audio]"@,
        "(Official Audio)"@,
        "[Performance Video]"@,
        "(Performance Video)"@,
        "[Visualizer]"@,
        "(Visualizer)"@,
        "[Lyric Video]"@,
        "(Lyric Video)"@,
        "[Lyrics Video]"@,
        "(Lyrics Video)"@,
        "[MV]"@,
        "(MV)"@,
        "[M/V]"@,
        "(M/V)"@,
        "[Audio]"@,
        "(Audio)"@,
        "[Color Coded Lyrics]"@,
        "(Color Coded Lyrics)"@,
        "[Remastered]"@,
        "(Remastered)"@,
        "[4K Remaster]"@,
        "(4K Remaster)"@
    ]
}

fn unwanted_tag_chars() -> (v: Vec<Vec<char>>)
    ensures
        views(v@) == unwanted_tags(),
{
    let mut v: Vec<Vec<char>> = Vec::new();
    v.push(chars_of("[Official Music Video]"));
    v.push(chars_of("(Official Music Video)"));
    v.push(chars_of("[Official Video]"));
    v.push(chars_of("(Official Video)"));
    v.push(chars_of("[Official MV]"));
    v.push(chars_of("(Official MV)"));
    v.push(chars_of("[Official Audio]"));
    v.push(chars_of("(Official Audio)"));
    v.push(chars_of("[Performance Video]"));
    v.push(chars_of("(Performance Video)"));
    v.push(chars_of("[Visualizer]"));
    v.push(chars_of("(Visualizer)"));
    v.push(chars_of("[Lyric Video]"));
    v.push(chars_of("(Lyric Video)"));
    v.push(chars_of("[Lyrics Video]"));
    v.push(chars_of("(Lyrics Video)"));
    v.push(chars_of("[MV]"));
    v.push(chars_of("(MV)"));
    v.push(chars_of("[M/V]"));
    v.push(chars_of("(M/V)"));
    v.push(chars_of("[Audio]"));
    v.push(chars_of("(Audio)"));
    v.push(chars_of("[Color Coded Lyrics]"));
    v.push(chars_of("(Color Coded Lyrics)"));
    v.push(chars_of("[Remastered]"));
    v.push(chars_of("(Remastered)"));
    v.push(chars_of("[4K Remaster]"));
    v.push(chars_of("(4K Remaster)"));
    assert(views(v@) =~= unwanted_tags());
    v
}

/// `c` without a leading track number such as `01 - ` or `02. `.
pub open spec fn strip_track_number(c: Seq<char>) -> Seq<char> {
    match find_seq(c, " - "@) {
        Some(pos) => if c.take(pos).len() > 0 && all_digits(c.take(pos)) {
            trim_ws(c.skip(pos + 3))
        } else {
            c
        },
        None => match find_seq(c, ". "@) {
            Some(pos) => if c.take(pos).len() > 0 && all_digits(c.take(pos)) {
                trim_ws(c.skip(pos + 2))
            } else {
                c
            },
            None => c,
        },
    }
}

/// `s` after removing every tag of `tags` (each matched case-insensitively, one tag
/// after the other).
pub open spec fn strip_tags(s: Seq<char>, tags: Seq<Seq<char>>) -> Seq<char>
    decreases tags.len(),
{
    if tags.len() == 0 {
        s
    } else {
        strip_tags(remove_all_lower(s, lowercase(tags[0])), tags.drop_first())
    }
}

/// The title used for a lyrics search.
pub open spec fn lyrics_title(title: Seq<char>) -> Seq<char> {
    collapse_spaces(
        trim_ws(
            trim_end_set(
                trim_ws(strip_tags(strip_track_number(trim_ws(title)), unwanted_tags())),
                seq!['-', '_', '|', ':'],
            ),
        ),
    )
}

/// The artist used for a lyrics search: trailing ` - Topic` removed, and only the first
/// of several comma-separated artists.
pub open spec fn lyrics_artist(artist: Seq<char>) -> Seq<char> {
    let a = trim_ws(strip_suffix_all(trim_ws(artist), " - Topic"@));
    match split_once_seq(a, ',') {
        Some((first, _)) => trim_ws(first),
        None => a,
    }
}

/// A byte that percent-encoding leaves as it is: ASCII letters and digits, `-`, `.`, `_`, `~`.
pub open spec fn url_safe_byte(b: u8) -> bool {
    (48 <= b <= 57) || (65 <= b <= 90) || (97 <= b <= 122) || b == 45 || b == 46 || b == 95 || b == 126
}

/// An uppercase hexadecimal digit.
pub open spec fn hex_upper(d: u8) -> char {
    if d < 10 {
        (48 + d) as char
    } else {
        (55 + d) as char
    }
}

/// The percent-encoding of a byte sequence.
pub open spec fn percent_encode(bs: Seq<u8>) -> Seq<char>
    decreases bs.len(),
{
    if bs.len() == 0 {
        seq![]
    } else {
        let b = bs[0];
        (if url_safe_byte(b) {
            seq![b as char]
        } else {
            seq!['%', hex_upper(b / 16), hex_upper(b % 16)]
        }) + percent_encode(bs.drop_first())
    }
}

/// The percent-encoding of the UTF-8 bytes of a string.
pub open spec fn url_encoded(s: Seq<char>) -> Seq<char> {
    percent_encode(encode_utf8(s))
}

/// `urlencoding::encode`: percent-encodes every UTF-8 byte except ASCII alphanumerics and
/// `-`, `_`, `.`, `~`, writing the two hex digits in uppercase, as the crate's source does.
#[verifier::external_body]
pub(crate) fn url_encode(s: &str) -> (r: String)
    ensures
        r@ == url_encoded(s@),
{
    urlencoding::encode(s).into_owned()
}

/// The LRCLIB "get" URL for a cleaned title, artist and rounded positive duration.
pub open spec fn lyrics_get_url_spec(title: Seq<char>, artist: Option<Seq<char>>, duration: Option<u64>) -> Seq<char> {
    let base = "https://lrclib.net/api/get?track_name="@ + url_encoded(title);
    let with_artist = match artist {
        Some(a) => if a.len() > 0 { base + "&artist_name="@ + url_encoded(a) } else { base },
        None => base,
    };
    match duration {
        Some(d) => if d > 0 { with_artist + "&duration="@ + decimal(d as nat) } else { with_artist },
        None => with_artist,
    }
}

/// The free-text search query: `artist title`, or the title alone.
pub open spec fn lyrics_query(title: Seq<char>, artist: Option<Seq<char>>) -> Seq<char> {
    match artist {
        Some(a) => if a.len() > 0 { a + " "@ + title } else { title },
        None => title,
    }
}

/// The view of an optional string.
pub open spec fn opt_str_view(o: Option<&str>) -> Option<Seq<char>> {
    match o {
        Some(s) => Some(s@),
        None => None,
    }
}


/// The lyrics a reply offers: its synced lyrics unless blank, else its plain lyrics
/// unless blank.
pub open spec fn reply_lyrics(synced: Option<Seq<char>>, plain: Option<Seq<char>>) -> Option<Seq<char>> {
    match synced {
        Some(s) if trim_ws(s).len() > 0 => Some(s),
        _ => match plain {
            Some(p) if trim_ws(p).len() > 0 => Some(p),
            _ => None,
        },
    }
}

/// The lyrics of the first reply in `rs` that offers any.
pub open spec fn first_reply_lyrics(rs: Seq<LrcResponse>) -> Option<Seq<char>>
    decreases rs.len(),
{
    if rs.len() == 0 {
        None
    } else {
        match reply_lyrics(opt_view(rs[0].synced_lyrics), opt_view(rs[0].plain_lyrics)) {
            Some(l) => Some(l),
            None => first_reply_lyrics(rs.drop_first()),
        }
    }
}

/// Looks up synced lyrics for downloaded tracks.
pub struct LyricsFetcher;

impl LyricsFetcher {
    /// Cleans a title for a lyrics search: a leading track number and MV/official tags
    /// are removed, trailing separators dropped, runs of spaces collapsed.
    pub fn clean_title(title: &str) -> (r: String)
        ensures
            r@ == lyrics_title(title@),
    {
        let mut cleaned = trim(&chars_of(title));
        let ghost c0 = cleaned@;
        let sep = chars_of(" - ");
        let dot = chars_of(". ");
        proof {
            reveal_strlit(" - ");
            reveal_strlit(". ");
        }
        match find(&cleaned, &sep) {
            Some(pos) => {
                let prefix = sub_chars(&cleaned, 0, pos);
                assert(prefix@ =~= c0.take(pos as int));
                if prefix.len() > 0 && is_all_digits(&prefix) {
                    assert(match_at(c0, sep@, pos as int));
                    assert(pos + 3 <= c0.len());
                    assert(c0.len() == cleaned.len());
                    let rest = sub_chars(&cleaned, pos + 3, cleaned.len());
                    assert(rest@ =~= c0.skip(pos + 3));
                    cleaned = trim(&rest);
                }
            },
            None => {
                match find(&cleaned, &dot) {
                    Some(pos) => {
                        let prefix = sub_chars(&cleaned, 0, pos);
                        assert(prefix@ =~= c0.take(pos as int));
                        if prefix.len() > 0 && is_all_digits(&prefix) {
                            assert(match_at(c0, dot@, pos as int));
                            assert(pos + 2 <= c0.len());
                            assert(c0.len() == cleaned.len());
                            let rest = sub_chars(&cleaned, pos + 2, cleaned.len());
                            assert(rest@ =~= c0.skip(pos + 2));
                            cleaned = trim(&rest);
                        }
                    },
                    None => {},
                }
            },
        }
        assert(cleaned@ == strip_track_number(trim_ws(title@)));
        let tags = unwanted_tag_chars();
        let ghost tv = views(tags@);
        let mut k: usize = 0;
        assert(tv.skip(0) =~= tv);
        while k < tags.len()
            invariant
                k <= tags.len(),
                tv == views(tags@),
                tv == unwanted_tags(),
                strip_tags(cleaned@, tv.skip(k as int)) == strip_tags(
                    strip_track_number(trim_ws(title@)),
                    unwanted_tags(),
                ),
            decreases tags.len() - k,
        {
            assert(tv.skip(k as int)[0] == tags@[k as int]@);
            assert(tv.skip(k as int).drop_first() =~= tv.skip(k + 1));
            let lower_tag = lowercase_chars(&tags[k]);
            cleaned = remove_all_lowercase(&cleaned, &lower_tag);
            k = k + 1;
        }
        assert(tv.skip(tags.len() as int) =~= Seq::<Seq<char>>::empty());
        let t1 = trim(&cleaned);
        let t2 = trim_end_in(&t1, &['-', '_', '|', ':']);
        proof {
            assert([ '-', '_', '|', ':' ]@ =~= seq!['-', '_', '|', ':']);
        }
        let t3 = trim(&t2);
        string_of(&collapse_double_spaces(&t3))
    }

    /// Cleans an artist for a lyrics search: trailing ` - Topic` removed, first of several
    /// comma-separated artists.
    pub fn clean_artist(artist: &str) -> (r: String)
        ensures
            r@ == lyrics_artist(artist@),
    {
        let t = trim(&chars_of(artist));
        let a = trim(&trim_end_str(&t, " - Topic"));
        match split_once(&a, ',') {
            Some((first, _)) => string_of(&trim(&first)),
            None => string_of(&a),
        }
    }

    /// The LRCLIB "get" URL for a cleaned title, an optional cleaned artist and a
    /// rounded duration in seconds.
    pub fn lyrics_get_url(clean_title: &str, clean_artist: Option<&str>, duration_secs: Option<u64>) -> (r: String)
        ensures
            r@ == lyrics_get_url_spec(clean_title@, opt_str_view(clean_artist), duration_secs),
    {
        let mut out: Vec<char> = Vec::new();
        append_str(&mut out, "https://lrclib.net/api/get?track_name=");
        let et = url_encode(clean_title);
        append_str(&mut out, et.as_str());
        match clean_artist {
            Some(a) => {
                if !a.is_empty() {
                    append_str(&mut out, "&artist_name=");
                    let ea = url_encode(a);
                    append_str(&mut out, ea.as_str());
                }
            },
            None => {},
        }
        match duration_secs {
            Some(d) => {
                if d > 0 {
                    append_str(&mut out, "&duration=");
                    let dd = decimal_chars(d);
                    append_chars(&mut out, &dd);
                }
            },
            None => {},
        }
        string_of(&out)
    }

    /// The LRCLIB search URL for a cleaned title and an optional cleaned artist.
    pub fn lyrics_search_url(clean_title: &str, clean_artist: Option<&str>) -> (r: String)
        ensures
            r@ == "https://lrclib.net/api/search?q="@ + url_encoded(
                lyrics_query(clean_title@, opt_str_view(clean_artist)),
            ),
    {
        let mut q: Vec<char> = Vec::new();
        match clean_artist {
            Some(a) => {
                if !a.is_empty() {
                    append_str(&mut q, a);
                    append_str(&mut q, " ");
                }
            },
            None => {},
        }
        append_str(&mut q, clean_title);
        let qs = string_of(&q);
        let mut out: Vec<char> = Vec::new();
        append_str(&mut out, "https://lrclib.net/api/search?q=");
        let eq = url_encode(qs.as_str());
        append_str(&mut out, eq.as_str());
        string_of(&out)
    }

    /// The lyrics a reply offers (synced preferred, blank ones skipped).
    pub fn reply_lyrics(reply: &LrcResponse) -> (r: Option<String>)
        ensures
            opt_view(r) == reply_lyrics(
                opt_view(reply.synced_lyrics),
                opt_view(reply.plain_lyrics),
            ),
    {
        match &reply.synced_lyrics {
            Some(s) => {
                if trim(&chars_of(s.as_str())).len() > 0 {
                    return Some(s.clone());
                }
            },
            None => {},
        }
        match &reply.plain_lyrics {
            Some(p) => {
                if trim(&chars_of(p.as_str())).len() > 0 {
                    return Some(p.clone());
                }
            },
            None => {},
        }
        None
    }

    /// The lyrics of the first search result that offers any.
    pub fn first_lyrics(replies: &[LrcResponse]) -> (r: Option<String>)
        ensures
            opt_view(r) == first_reply_lyrics(replies@),
    {
        let mut i: usize = 0;
        assert(replies@.skip(0) =~= replies@);
        while i < replies.len()
            invariant
                i <= replies.len(),
                first_reply_lyrics(replies@.skip(i as int)) == first_reply_lyrics(replies@),
            decreases replies.len() - i,
        {
            assert(replies@.skip(i as int)[0] == replies@[i as int]);
            assert(replies@.skip(i as int).drop_first() =~= replies@.skip(i + 1));
            match Self::reply_lyrics(&replies[i]) {
                Some(l) => {
                    return Some(l);
                },
                None => {},
            }
            i = i + 1;
        }
        None
    }
}

/// Removing the tags of `t` and then every occurrence of `x` is removing the tags of
/// `t` followed by `x`.
proof fn lemma_strip_tags_push(s: Seq<char>, t: Seq<Seq<char>>, x: Seq<char>)
    ensures
        strip_tags(s, t.push(x)) == remove_all_lower(strip_tags(s, t), lowercase(x)),
    decreases t.len(),
{
    let tx = t.push(x);
    if t.len() == 0 {
        assert(tx[0] == x);
        assert(tx.drop_first() =~= t);
        assert(strip_tags(s, tx) == strip_tags(remove_all_lower(s, lowercase(x)), t));
    } else {
        assert(tx[0] == t[0]);
        assert(tx.drop_first() =~= t.drop_first().push(x));
        lemma_strip_tags_push(remove_all_lower(s, lowercase(t[0])), t.drop_first(), x);
        assert(strip_tags(s, tx) == strip_tags(
            remove_all_lower(s, lowercase(t[0])),
            t.drop_first().push(x),
        ));
    }
}

/// Title cleaning for a lyrics search removes these tags, in this order, each one in
/// any case and again and again; right after the removal of a tag, the case-insensitive
/// search finds no occurrence of it (for a tag whose lowercase mapping is not empty),
/// and none of the last tag is left in the result. (A later removal can join the two
/// halves of an earlier tag, as in `(Offic(MV)ial Audio)`, so an earlier tag may come
/// back.)
pub proof fn lyrics_tags_removed_in_order(s: Seq<char>)
    ensures
        ({
            let tags = seq![
                "[Official Music Video]"@,
                "(Official Music Video)"@,
                "[Official Video]"@,
                "(Official Video)"@,
                "[Official MV]"@,
                "(Official MV)"@,
                "[Official Audio]"@,
                "(Official Audio)"@,
                "[Performance Video]"@,
                "(Performance Video)"@,
                "[Visualizer]"@,
                "(Visualizer)"@,
                "[Lyric Video]"@,
                "(Lyric Video)"@,
                "[Lyrics Video]"@,
                "(Lyrics Video)"@,
                "[MV]"@,
                "(MV)"@,
                "[M/V]"@,
                "(M/V)"@,
                "[Audio]"@,
                "(Audio)"@,
                "[Color Coded Lyrics]"@,
                "(Color Coded Lyrics)"@,
                "[Remastered]"@,
                "(Remastered)"@,
                "[4K Remaster]"@,
                "(4K Remaster)"@
            ];
            &&& strip_tags(s, unwanted_tags()) == strip_tags(s, tags)
            &&& forall|k: int|
                0 <= k < tags.len() && lowercase(tags[k]).len() > 0 ==> lower_match(
                    #[trigger] strip_tags(s, tags.take(k + 1)),
                    lowercase(tags[k]),
                ) is None
            &&& lowercase("(4K Remaster)"@).len() > 0 ==> lower_match(
                strip_tags(s, unwanted_tags()),
                lowercase("(4K Remaster)"@),
            ) is None
        }),
{
    let tags = seq![
                "[Official Music Video]"@,
                "(Official Music Video)"@,
                "[Official Video]"@,
                "(Official Video)"@,
                "[Official MV]"@,
                "(Official MV)"@,
                "[Official Audio]"@,
                "(Official Audio)"@,
                "[Performance Video]"@,
                "(Performance Video)"@,
                "[Visualizer]"@,
                "(Visualizer)"@,
                "[Lyric Video]"@,
                "(Lyric Video)"@,
                "[Lyrics Video]"@,
                "(Lyrics Video)"@,
                "[MV]"@,
                "(MV)"@,
                "[M/V]"@,
                "(M/V)"@,
                "[Audio]"@,
                "(Audio)"@,
                "[Color Coded Lyrics]"@,
                "(Color Coded Lyrics)"@,
                "[Remastered]"@,
                "(Remastered)"@,
                "[4K Remaster]"@,
                "(4K Remaster)"@
    ];
    assert(unwanted_tags() =~= tags);
    assert forall|k: int|
        0 <= k < tags.len() && lowercase(tags[k]).len() > 0 implies lower_match(
            #[trigger] strip_tags(s, tags.take(k + 1)),
            lowercase(tags[k]),
        ) is None by {
        assert(tags.take(k + 1) =~= tags.take(k).push(tags[k]));
        lemma_strip_tags_push(s, tags.take(k), tags[k]);
        crate::text::lemma_remove_all_lower_clean(strip_tags(s, tags.take(k)), lowercase(tags[k]));
    }
    assert(tags.take(28) =~= tags);
    assert(strip_tags(s, tags.take(27int + 1)) == strip_tags(s, tags));
}

} // verus!
