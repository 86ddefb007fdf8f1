//! The metadata section: titles, artists, creator and search terms.
use vstd::prelude::*;
use vstd::seq_lib::lemma_concat_associative;
use crate::error::{result_view, BeatmapParseError, ParseFault};
use crate::section::{
    field_as, field_text, get_i32_field, get_text_field, write_i32_field, write_text_field,
};
use crate::number::{i32_of, int_text};
use crate::text::{
    chars_of, join, join_strings, lines, lines_of, split, split_strings, string_views, views,
};

verus! {

/// The search terms: the `Tags` field split at each space.
pub open spec fn tags_of(ls: Seq<Seq<char>>) -> Result<Seq<Seq<char>>, ParseFault> {
    match field_as(ls, "Tags"@, Seq::empty(), |v: Seq<char>| Some(v)) {
        Err(e) => Err(e),
        Ok(t) => Ok(split(t, ' ')),
    }
}

fn get_tags(ls: &Vec<Vec<char>>) -> (r: Result<Vec<String>, BeatmapParseError>)
    ensures
        match r {
            Ok(v) => tags_of(views(ls@)) == Ok::<Seq<Seq<char>>, ParseFault>(string_views(v@)),
            Err(e) => tags_of(views(ls@)) == Err::<Seq<Seq<char>>, ParseFault>(e@),
        },
{
    match get_text_field(ls, "Tags") {
        Err(e) => Err(e),
        Ok(t) => {
            let c = chars_of(t.as_str());
            Ok(split_strings(&c, ' '))
        },
    }
}

/// The model of [`MetadataSection`].
pub struct MetadataSectionView {
    pub title: Seq<char>,
    pub title_unicode: Seq<char>,
    pub artist: Seq<char>,
    pub artist_unicode: Seq<char>,
    pub creator: Seq<char>,
    pub version: Seq<char>,
    pub source: Seq<char>,
    pub tags: Seq<Seq<char>>,
    pub beatmap_id: i32,
    pub beatmap_set_id: i32,
}

/// Information used to identify the beatmap.
#[derive(Debug, Default)]
pub struct MetadataSection {
    /// Romanised song title
    pub title: String,
    /// Song title
    pub title_unicode: String,
    /// Romanised song artist
    pub artist: String,
    /// Song artist
    pub artist_unicode: String,
    /// Beatmap creator
    pub creator: String,
    /// Difficulty name
    pub version: String,
    /// Original media the song was produced for
    pub source: String,
    /// Search terms
    pub tags: Vec<String>,
    /// Difficulty ID
    pub beatmap_id: i32,
    /// Beatmap ID
    pub beatmap_set_id: i32,
}

impl View for MetadataSection {
    type V = MetadataSectionView;

    open spec fn view(&self) -> MetadataSectionView {
        MetadataSectionView {
            title: self.title@,
            title_unicode: self.title_unicode@,
            artist: self.artist@,
            artist_unicode: self.artist_unicode@,
            creator: self.creator@,
            version: self.version@,
            source: self.source@,
            tags: string_views(self.tags@),
            beatmap_id: self.beatmap_id,
            beatmap_set_id: self.beatmap_set_id,
        }
    }
}

impl MetadataSection {
    /// The model of the section whose fields all take their defaults.
    pub open spec fn spec_default() -> MetadataSectionView {
        MetadataSectionView {
            title: Seq::empty(),
            title_unicode: Seq::empty(),
            artist: Seq::empty(),
            artist_unicode: Seq::empty(),
            creator: Seq::empty(),
            version: Seq::empty(),
            source: Seq::empty(),
            tags: Seq::empty(),
            beatmap_id: 0i32,
            beatmap_set_id: 0i32,
        }
    }

    /// The section whose fields all take their defaults.
    pub fn new() -> (r: MetadataSection)
        ensures
            r@ == MetadataSection::spec_default(),
    {
        let r = MetadataSection {
            title: String::new(),
            title_unicode: String::new(),
            artist: String::new(),
            artist_unicode: String::new(),
            creator: String::new(),
            version: String::new(),
            source: String::new(),
            tags: Vec::new(),
            beatmap_id: 0,
            beatmap_set_id: 0,
        };
        proof {
            assert(r@.tags =~= Seq::empty());
        }
        r
    }

    /// The section that `s` spells: each field read from the first line that
    /// names it, its default when no line does.
    pub open spec fn spec_parse(s: Seq<char>) -> Result<MetadataSectionView, ParseFault> {
        let ls = lines(s);
        match field_as(
            ls,
            "Title"@,
            Seq::empty(),
            |v: Seq<char>| Some(v),
        ) {
            Err(e) => Err(e),
            Ok(title) => {
                match field_as(
                    ls,
                    "TitleUnicode"@,
                    Seq::empty(),
                    |v: Seq<char>| Some(v),
                ) {
                    Err(e) => Err(e),
                    Ok(title_unicode) => {
                        match field_as(
                            ls,
                            "Artist"@,
                            Seq::empty(),
                            |v: Seq<char>| Some(v),
                        ) {
                            Err(e) => Err(e),
                            Ok(artist) => {
                                match field_as(
                                    ls,
                                    "ArtistUnicode"@,
                                    Seq::empty(),
                                    |v: Seq<char>| Some(v),
                                ) {
                                    Err(e) => Err(e),
                                    Ok(artist_unicode) => {
                                        match field_as(
                                            ls,
                                            "Creator"@,
                                            Seq::empty(),
                                            |v: Seq<char>| Some(v),
                                        ) {
                                            Err(e) => Err(e),
                                            Ok(creator) => {
                                                match field_as(
                                                    ls,
                                                    "Version"@,
                                                    Seq::empty(),
                                                    |v: Seq<char>| Some(v),
                                                ) {
                                                    Err(e) => Err(e),
                                                    Ok(version) => {
                                                        match field_as(
                                                            ls,
                                                            "Source"@,
                                                            Seq::empty(),
                                                            |v: Seq<char>| Some(v),
                                                        ) {
                                                            Err(e) => Err(e),
                                                            Ok(source) => {
                                                                match tags_of(ls) {
                                                                    Err(e) => Err(e),
                                                                    Ok(tags) => {
                                                                        match field_as(
                                                                            ls,
                                                                            "BeatmapID"@,
                                                                            0i32,
                                                                            |v: Seq<char>| i32_of(v),
                                                                        ) {
                                                                            Err(e) => Err(e),
                                                                            Ok(beatmap_id) => {
                                                                                match field_as(
                                                                                    ls,
                                                                                    "BeatmapSetID"@,
                                                                                    0i32,
                                                                                    |v: Seq<char>| i32_of(v),
                                                                                ) {
                                                                                    Err(e) => Err(e),
                                                                                    Ok(beatmap_set_id) => {
                                                                                        Ok(MetadataSectionView {
                                                                                            title,
                                                                                            title_unicode,
                                                                                            artist,
                                                                                            artist_unicode,
                                                                                            creator,
                                                                                            version,
                                                                                            source,
                                                                                            tags,
                                                                                            beatmap_id,
                                                                                            beatmap_set_id,
                                                                                        })
                                                                                    },
                                                                                }
                                                                            },
                                                                        }
                                                                    },
                                                                }
                                                            },
                                                        }
                                                    },
                                                }
                                            },
                                        }
                                    },
                                }
                            },
                        }
                    },
                }
            },
        }
    }

    /// The canonical section: one line per field that is not at its default,
    /// in declaration order.
    pub open spec fn spec_text(v: MetadataSectionView) -> Seq<char> {
        field_text("Title"@, v.title, v.title.len() == 0, false)
            + field_text("TitleUnicode"@, v.title_unicode, v.title_unicode.len() == 0, false)
            + field_text("Artist"@, v.artist, v.artist.len() == 0, false)
            + field_text("ArtistUnicode"@, v.artist_unicode, v.artist_unicode.len() == 0, false)
            + field_text("Creator"@, v.creator, v.creator.len() == 0, false)
            + field_text("Version"@, v.version, v.version.len() == 0, false)
            + field_text("Source"@, v.source, v.source.len() == 0, false)
            + field_text("Tags"@, join(v.tags, " "@), join(v.tags, " "@).len() == 0, false)
            + field_text("BeatmapID"@, int_text(v.beatmap_id as int), v.beatmap_id == 0, false)
            + field_text("BeatmapSetID"@, int_text(v.beatmap_set_id as int), v.beatmap_set_id == 0, false)
    }

    /// Reads the section from characters.
    pub fn parse_chars(s: &[char]) -> (r: Result<MetadataSection, BeatmapParseError>)
        ensures
            result_view(r) == MetadataSection::spec_parse(s@),
    {
        let ls = lines_of(s);
        let title = match get_text_field(&ls, "Title") {
            Err(e) => {
                return Err(e);
            },
            Ok(v) => v,
        };
        let title_unicode = match get_text_field(&ls, "TitleUnicode") {
            Err(e) => {
                return Err(e);
            },
            Ok(v) => v,
        };
        let artist = match get_text_field(&ls, "Artist") {
            Err(e) => {
                return Err(e);
            },
            Ok(v) => v,
        };
        let artist_unicode = match get_text_field(&ls, "ArtistUnicode") {
            Err(e) => {
                return Err(e);
            },
            Ok(v) => v,
        };
        let creator = match get_text_field(&ls, "Creator") {
            Err(e) => {
                return Err(e);
            },
            Ok(v) => v,
        };
        let version = match get_text_field(&ls, "Version") {
            Err(e) => {
                return Err(e);
            },
            Ok(v) => v,
        };
        let source = match get_text_field(&ls, "Source") {
            Err(e) => {
                return Err(e);
            },
            Ok(v) => v,
        };
        let tags = match get_tags(&ls) {
            Err(e) => {
                return Err(e);
            },
            Ok(v) => v,
        };
        let beatmap_id = match get_i32_field(&ls, "BeatmapID") {
            Err(e) => {
                return Err(e);
            },
            Ok(v) => v,
        };
        let beatmap_set_id = match get_i32_field(&ls, "BeatmapSetID") {
            Err(e) => {
                return Err(e);
            },
            Ok(v) => v,
        };
        Ok(MetadataSection {
            title,
            title_unicode,
            artist,
            artist_unicode,
            creator,
            version,
            source,
            tags,
            beatmap_id,
            beatmap_set_id,
        })
    }

    /// Reads the section from text.
    pub fn parse(s: &str) -> (r: Result<MetadataSection, BeatmapParseError>)
        ensures
            result_view(r) == MetadataSection::spec_parse(s@),
    {
        let c = chars_of(s);
        MetadataSection::parse_chars(&c)
    }

    /// Appends the canonical section to `buf`.
    pub fn write_to(&self, buf: &mut String)
        ensures
            final(buf)@ == old(buf)@ + MetadataSection::spec_text(self@),
    {
        let ghost start = buf@;
        write_text_field(buf, "Title", &self.title, false);
        let ghost mut written = field_text("Title"@, self@.title, self@.title.len() == 0, false);
        write_text_field(buf, "TitleUnicode", &self.title_unicode, false);
        proof {
            let line = field_text("TitleUnicode"@, self@.title_unicode, self@.title_unicode.len() == 0, false);
            lemma_concat_associative(start, written, line);
            written = written + line;
        }
        write_text_field(buf, "Artist", &self.artist, false);
        proof {
            let line = field_text("Artist"@, self@.artist, self@.artist.len() == 0, false);
            lemma_concat_associative(start, written, line);
            written = written + line;
        }
        write_text_field(buf, "ArtistUnicode", &self.artist_unicode, false);
        proof {
            let line = field_text("ArtistUnicode"@, self@.artist_unicode, self@.artist_unicode.len() == 0, false);
            lemma_concat_associative(start, written, line);
            written = written + line;
        }
        write_text_field(buf, "Creator", &self.creator, false);
        proof {
            let line = field_text("Creator"@, self@.creator, self@.creator.len() == 0, false);
            lemma_concat_associative(start, written, line);
            written = written + line;
        }
        write_text_field(buf, "Version", &self.version, false);
        proof {
            let line = field_text("Version"@, self@.version, self@.version.len() == 0, false);
            lemma_concat_associative(start, written, line);
            written = written + line;
        }
        write_text_field(buf, "Source", &self.source, false);
        proof {
            let line = field_text("Source"@, self@.source, self@.source.len() == 0, false);
            lemma_concat_associative(start, written, line);
            written = written + line;
        }
        {
            let t = join_strings(&self.tags, " ");
            write_text_field(buf, "Tags", &t, false);
        }
        proof {
            let line = field_text("Tags"@, join(self@.tags, " "@), join(self@.tags, " "@).len() == 0, false);
            lemma_concat_associative(start, written, line);
            written = written + line;
        }
        write_i32_field(buf, "BeatmapID", self.beatmap_id, false);
        proof {
            let line = field_text("BeatmapID"@, int_text(self@.beatmap_id as int), self@.beatmap_id == 0, false);
            lemma_concat_associative(start, written, line);
            written = written + line;
        }
        write_i32_field(buf, "BeatmapSetID", self.beatmap_set_id, false);
        proof {
            let line = field_text("BeatmapSetID"@, int_text(self@.beatmap_set_id as int), self@.beatmap_set_id == 0, false);
            lemma_concat_associative(start, written, line);
            written = written + line;
        }
    }

    /// The canonical section.
    pub fn serialize(&self) -> (r: String)
        ensures
            r@ == MetadataSection::spec_text(self@),
    {
        let mut buf = String::new();
        self.write_to(&mut buf);
        buf
    }

    /// The canonical section.
    pub fn to_string(&self) -> (r: String)
        ensures
            r@ == MetadataSection::spec_text(self@),
    {
        self.serialize()
    }
}

} // verus!
