//! Reading the track rows out of a show's published playlist page.
use vstd::prelude::*;
use crate::models::Track;
use crate::text::{trim, trim_str};
use crate::error::SyncError;

verus! {

/// What the page's elements hold: for each element that `rows` selects, in document order,
/// the text of its first descendant that `cell` selects; `None` when a selector is not valid.
pub uninterp spec fn cell_texts(html: Seq<char>, rows: Seq<char>, cell: Seq<char>) -> Option<
    Seq<Option<Seq<char>>>,
>;

pub open spec fn texts_view(v: Seq<Option<String>>) -> Seq<Option<Seq<char>>> {
    v.map_values(|o: Option<String>| match o {
        Some(s) => Some(s@),
        None => None,
    })
}

pub open spec fn opt_texts_view(v: Option<Vec<Option<String>>>) -> Option<Seq<Option<Seq<char>>>> {
    match v {
        Some(v) => Some(texts_view(v@)),
        None => None,
    }
}

/// Relies on scraper's `Html::parse_document`, `Selector::parse`, `select` and `text`:
/// the result depends on the three strings alone.
#[verifier::external_body]
fn first_cell_texts(html: &str, rows: &str, cell: &str) -> (r: Option<Vec<Option<String>>>)
    ensures
        opt_texts_view(r) == cell_texts(html@, rows@, cell@),
{
    let doc = scraper::Html::parse_document(html);
    let rows = scraper::Selector::parse(rows).ok()?;
    let cell = scraper::Selector::parse(cell).ok()?;
    Some(
        doc.select(&rows).map(|row| row.select(&cell).next().map(|el| el.text().collect::<String>())).collect(),
    )
}

/// The `i`th entry of a column, `None` past its end.
pub open spec fn cell_at(col: Seq<Option<Seq<char>>>, i: int) -> Option<Seq<char>> {
    if 0 <= i < col.len() { col[i] } else { None }
}

/// A required field: the trimmed text, or empty when absent.
pub open spec fn required_field(o: Option<Seq<char>>) -> Seq<char> {
    match o {
        Some(t) => trim(t),
        None => Seq::empty(),
    }
}

/// An optional field: the trimmed text when it is not empty.
pub open spec fn optional_field(o: Option<Seq<char>>) -> Option<Seq<char>> {
    match o {
        Some(t) => if trim(t).len() > 0 { Some(trim(t)) } else { None },
        None => None,
    }
}

pub open spec fn opt_view(o: Option<String>) -> Option<Seq<char>> {
    match o {
        Some(s) => Some(s@),
        None => None,
    }
}

/// A track seen as its five texts.
pub open spec fn track_texts(t: Track) -> (Seq<char>, Seq<char>, Seq<char>, Option<Seq<char>>, Option<Seq<char>>) {
    (t.artist@, t.song@, t.album@, opt_view(t.label), opt_view(t.time))
}

/// The five columns of a playlist page.
pub struct SpinColumns {
    pub artist: Seq<Option<Seq<char>>>,
    pub song: Seq<Option<Seq<char>>>,
    pub album: Seq<Option<Seq<char>>>,
    pub label: Seq<Option<Seq<char>>>,
    pub time: Seq<Option<Seq<char>>>,
}

/// The tracks of the first `n` rows: those whose artist and song are not empty.
pub open spec fn spin_tracks(c: SpinColumns, n: nat) -> Seq<(Seq<char>, Seq<char>, Seq<char>, Option<Seq<char>>, Option<Seq<char>>)>
    decreases n,
{
    if n == 0 {
        Seq::empty()
    } else {
        let i = n - 1;
        let prev = spin_tracks(c, i as nat);
        let artist = required_field(cell_at(c.artist, i));
        let song = required_field(cell_at(c.song, i));
        if artist.len() > 0 && song.len() > 0 {
            prev.push((
                artist,
                song,
                required_field(cell_at(c.album, i)),
                optional_field(cell_at(c.label, i)),
                optional_field(cell_at(c.time, i)),
            ))
        } else {
            prev
        }
    }
}

/// The columns of a page, when every selector is valid.
pub open spec fn page_columns(html: Seq<char>) -> Option<SpinColumns> {
    let rows = "tr.spin-item"@;
    match (
        cell_texts(html, rows, "span.artist"@),
        cell_texts(html, rows, "span.song"@),
        cell_texts(html, rows, "span.release"@),
        cell_texts(html, rows, "span.label"@),
        cell_texts(html, rows, "td.spin-time a"@),
    ) {
        (Some(artist), Some(song), Some(album), Some(label), Some(time)) => Some(
            SpinColumns { artist, song, album, label, time },
        ),
        _ => None,
    }
}

fn required_text(col: &Vec<Option<String>>, i: usize) -> (r: String)
    ensures
        r@ == required_field(cell_at(texts_view(col@), i as int)),
{
    if i < col.len() {
        match &col[i] {
            Some(t) => trim_str(t.as_str()),
            None => String::new(),
        }
    } else {
        String::new()
    }
}

fn optional_text(col: &Vec<Option<String>>, i: usize) -> (r: Option<String>)
    ensures
        opt_view(r) == optional_field(cell_at(texts_view(col@), i as int)),
{
    if i < col.len() {
        match &col[i] {
            Some(t) => {
                let s = trim_str(t.as_str());
                if s.unicode_len() > 0 {
                    Some(s)
                } else {
                    None
                }
            },
            None => None,
        }
    } else {
        None
    }
}

/// The tracks listed on a playlist page, in page order. A row counts when its artist and song
/// are not empty; an empty label or time is left out.
pub fn parse_playlist_html(html: &str) -> (r: Result<Vec<Track>, SyncError>)
    ensures
        match page_columns(html@) {
            Some(c) => r is Ok && r->Ok_0@.map_values(|t: Track| track_texts(t)) == spin_tracks(
                c,
                c.artist.len(),
            ),
            None => r is Err,
        },
{
    let rows = "tr.spin-item";
    let artist = first_cell_texts(html, rows, "span.artist");
    let song = first_cell_texts(html, rows, "span.song");
    let album = first_cell_texts(html, rows, "span.release");
    let label = first_cell_texts(html, rows, "span.label");
    let time = first_cell_texts(html, rows, "td.spin-time a");
    match (artist, song, album, label, time) {
        (Some(artist), Some(song), Some(album), Some(label), Some(time)) => {
            let ghost c = SpinColumns {
                artist: texts_view(artist@),
                song: texts_view(song@),
                album: texts_view(album@),
                label: texts_view(label@),
                time: texts_view(time@),
            };
            let mut out: Vec<Track> = Vec::new();
            let mut i: usize = 0;
            while i < artist.len()
                invariant
                    i <= artist@.len(),
                    c.artist == texts_view(artist@),
                    c.song == texts_view(song@),
                    c.album == texts_view(album@),
                    c.label == texts_view(label@),
                    c.time == texts_view(time@),
                    out@.map_values(|t: Track| track_texts(t)) == spin_tracks(c, i as nat),
                decreases artist@.len() - i,
            {
                let a = required_text(&artist, i);
                let s = required_text(&song, i);
                let ghost before = out@;
                if a.unicode_len() > 0 && s.unicode_len() > 0 {
                    let t = Track {
                        artist: a,
                        song: s,
                        album: required_text(&album, i),
                        label: optional_text(&label, i),
                        time: optional_text(&time, i),
                    };
                    out.push(t);
                    assert(out@.map_values(|t: Track| track_texts(t)) =~= before.map_values(
                        |t: Track| track_texts(t),
                    ).push(track_texts(t)));
                }
                i += 1;
            }
            assert(c.artist.len() == artist@.len());
            Ok(out)
        },
        _ => Err(SyncError::Parse { what: String::from_str("playlist page selectors") }),
    }
}

} // verus!
