//! Custom fonts: a font PNG baked by `usagi font bake` carries its glyph
//! metadata as JSON in a compressed text chunk. This module finds that
//! chunk and reads the metadata into the glyph table the renderer
//! uploads next to the atlas texture.

use crate::text::{chars_of, concat2, concat3, parse_i32, parse_i32_spec, string_of};
use vstd::prelude::*;

verus! {

/// Keyword of the compressed text chunk that holds a baked font's
/// metadata.
pub const FONT_METADATA_KEYWORD: &'static str = "usagi-font";

/// The user font's file name at the project root.
pub const USER_FONT_PNG: &'static str = "font.png";

/// Line height of the bundled monogram font.
pub const MONOGRAM_SIZE: i32 = 12;

/// Keywords of the compressed text chunks the `png` decoder finds in a
/// PNG, in file order, or its error's text when the PNG does not decode.
pub uninterp spec fn png_ztxt_keywords_of(png: Seq<u8>) -> Result<Seq<Seq<char>>, Seq<char>>;

/// The decompressed text of the `index`-th compressed text chunk of a
/// PNG; on failure, whether decompression failed (`true`) or reading the
/// text did (`false`), with the error's text.
pub uninterp spec fn png_ztxt_text_of(png: Seq<u8>, index: int) -> Result<Seq<char>, (bool, Seq<char>)>;

/// The `Debug` text of a string (`format!("{:?}", s)`).
pub uninterp spec fn debug_text_of(s: Seq<char>) -> Seq<char>;

/// A list of strings, as characters.
pub open spec fn strings_view(v: Seq<String>) -> Seq<Seq<char>> {
    v.map_values(|s: String| s@)
}

/// Calls `png::Decoder::new` and `read_info`, listing the keywords of
/// `Info::compressed_latin1_text`; named by `png_ztxt_keywords_of`.
#[verifier::external_body]
fn png_ztxt_keywords(png: &[u8]) -> (r: Result<Vec<String>, String>)
    ensures
        match r {
            Ok(ks) => png_ztxt_keywords_of(png@) == Ok::<Seq<Seq<char>>, Seq<char>>(
                strings_view(ks@),
            ),
            Err(e) => png_ztxt_keywords_of(png@) == Err::<Seq<Seq<char>>, Seq<char>>(e@),
        },
{
    let reader = png::Decoder::new(std::io::Cursor::new(png)).read_info().map_err(
        |e| e.to_string(),
    )?;
    Ok(reader.info().compressed_latin1_text.iter().map(|c| c.keyword.clone()).collect())
}

/// Decodes the PNG again and calls `ZTXtChunk::decompress_text` then
/// `get_text` on its `index`-th compressed text chunk; named by
/// `png_ztxt_text_of`.
#[verifier::external_body]
fn png_ztxt_text(png: &[u8], index: usize) -> (r: Result<String, (bool, String)>)
    requires
        png_ztxt_keywords_of(png@) matches Ok(ks) && index < ks.len(),
    ensures
        match r {
            Ok(t) => png_ztxt_text_of(png@, index as int) == Ok::<Seq<char>, (bool, Seq<char>)>(
                t@,
            ),
            Err((d, e)) => png_ztxt_text_of(png@, index as int) == Err::<
                Seq<char>,
                (bool, Seq<char>),
            >((d, e@)),
        },
{
    let reader = png::Decoder::new(std::io::Cursor::new(png)).read_info().map_err(
        |e| (true, e.to_string()),
    )?;
    let mut chunk = reader.info().compressed_latin1_text[index].clone();
    chunk.decompress_text().map_err(|e| (true, e.to_string()))?;
    chunk.get_text().map_err(|e| (false, e.to_string()))
}

/// Formats a string with `Debug`; named by `debug_text_of`.
#[verifier::external_body]
fn debug_text(s: &str) -> (r: String)
    ensures
        r@ == debug_text_of(s@),
{
    format!("{:?}", s)
}

/// Position of the first `k` in `ks`.
pub open spec fn first_index_of(ks: Seq<Seq<char>>, k: Seq<char>) -> Option<int>
    decreases ks.len(),
{
    if ks.len() == 0 {
        None
    } else if ks.last() == k && first_index_of(ks.drop_last(), k) is None {
        Some(ks.len() - 1)
    } else {
        first_index_of(ks.drop_last(), k)
    }
}

/// Text of a baked font's metadata chunk, or why it can't be had.
pub open spec fn embedded_metadata_spec(png: Seq<u8>) -> Result<Seq<char>, Seq<char>> {
    match png_ztxt_keywords_of(png) {
        Err(e) => Err(seq!['p', 'n', 'g', ' ', 'd', 'e', 'c', 'o', 'd', 'e', ':', ' '] + e),
        Ok(ks) => match first_index_of(ks, FONT_METADATA_KEYWORD@) {
            None => Err(seq!['n', 'o', ' '] + FONT_METADATA_KEYWORD@ + seq![
                ' ',
                'z',
                'T',
                'X',
                't',
                ' ',
                'c',
                'h',
                'u',
                'n',
                'k',
            ]),
            Some(i) => match png_ztxt_text_of(png, i) {
                Ok(t) => Ok(t),
                Err((true, e)) => Err(
                    seq!['d', 'e', 'c', 'o', 'm', 'p', 'r', 'e', 's', 's', ' ', 'z', 'T', 'X', 't', ':', ' ']
                        + e,
                ),
                Err((false, e)) => Err(
                    seq!['r', 'e', 'a', 'd', ' ', 'z', 'T', 'X', 't', ' ', 't', 'e', 'x', 't', ':', ' ']
                        + e,
                ),
            },
        },
    }
}

/// Result of a string-returning parse, as characters.
pub open spec fn result_view(r: Result<String, String>) -> Result<Seq<char>, Seq<char>> {
    match r {
        Ok(s) => Ok(s@),
        Err(e) => Err(e@),
    }
}

/// Scans a PNG for the font metadata chunk and returns its decompressed
/// text.
pub fn extract_embedded_metadata(png: &[u8]) -> (r: Result<String, String>)
    ensures
        result_view(r) == embedded_metadata_spec(png@),
{
    let ks = match png_ztxt_keywords(png) {
        Ok(ks) => ks,
        Err(e) => {
            proof {
                reveal_strlit("png decode: ");
                assert("png decode: "@ =~= seq!['p', 'n', 'g', ' ', 'd', 'e', 'c', 'o', 'd', 'e', ':', ' ']);
            }
            return Err(concat2("png decode: ", e.as_str()));
        },
    };
    let ghost kv = strings_view(ks@);
    let kw = chars_of(FONT_METADATA_KEYWORD);
    let mut i: usize = 0;
    while i < ks.len()
        invariant
            i <= ks.len(),
            kv == strings_view(ks@),
            png_ztxt_keywords_of(png@) == Ok::<Seq<Seq<char>>, Seq<char>>(kv),
            kw@ == FONT_METADATA_KEYWORD@,
            first_index_of(kv.subrange(0, i as int), kw@) is None,
        decreases ks.len() - i,
    {
        let here = chars_of(ks[i].as_str());
        proof {
            assert(kv.subrange(0, i + 1).drop_last() =~= kv.subrange(0, i as int));
        }
        if crate::text::chars_eq(here.as_slice(), kw.as_slice()) {
            proof {
                assert(first_index_of(kv.subrange(0, i + 1), kw@) == Some(i as int));
                lemma_first_index_extends(kv, kw@, i as int + 1);
            }
            return match png_ztxt_text(png, i) {
                Ok(t) => Ok(t),
                Err((d, e)) => {
                    if d {
                        proof {
                            reveal_strlit("decompress zTXt: ");
                            assert("decompress zTXt: "@ =~= seq!['d', 'e', 'c', 'o', 'm', 'p', 'r', 'e', 's', 's', ' ', 'z', 'T', 'X', 't', ':', ' ']);
                        }
                        Err(concat2("decompress zTXt: ", e.as_str()))
                    } else {
                        proof {
                            reveal_strlit("read zTXt text: ");
                            assert("read zTXt text: "@ =~= seq!['r', 'e', 'a', 'd', ' ', 'z', 'T', 'X', 't', ' ', 't', 'e', 'x', 't', ':', ' ']);
                        }
                        Err(concat2("read zTXt text: ", e.as_str()))
                    }
                },
            };
        }
        i = i + 1;
    }
    proof {
        assert(kv.subrange(0, ks.len() as int) =~= kv);
        reveal_strlit("no ");
        reveal_strlit(" zTXt chunk");
        assert("no "@ =~= seq!['n', 'o', ' ']);
        assert(" zTXt chunk"@ =~= seq![' ', 'z', 'T', 'X', 't', ' ', 'c', 'h', 'u', 'n', 'k']);
    }
    Err(concat3("no ", FONT_METADATA_KEYWORD, " zTXt chunk"))
}

/// A first match in a prefix stays the first match of the whole list.
proof fn lemma_first_index_extends(ks: Seq<Seq<char>>, k: Seq<char>, n: int)
    requires
        0 <= n <= ks.len(),
        first_index_of(ks.subrange(0, n), k) is Some,
    ensures
        first_index_of(ks, k) == first_index_of(ks.subrange(0, n), k),
    decreases ks.len() - n,
{
    if n < ks.len() {
        let longer = ks.subrange(0, n + 1);
        assert(longer.drop_last() =~= ks.subrange(0, n));
        lemma_first_index_extends(ks, k, n + 1);
    } else {
        assert(ks.subrange(0, n) =~= ks);
    }
}


/// What `serde_json` reads from font metadata bytes: the value under
/// `lh_key` when it is an `i64`, and the entries of the object under
/// `glyphs_key` in the map's order, each as its key and, per name of
/// `fields`, the value there when it is an `i64`; or the error's text
/// when the bytes are not JSON.
pub uninterp spec fn font_json_of(
    json: Seq<u8>,
    lh_key: Seq<char>,
    glyphs_key: Seq<char>,
    fields: Seq<Seq<char>>,
) -> Result<(Option<i64>, Option<Seq<(Seq<char>, Seq<Option<i64>>)>>), Seq<char>>;

/// The entries of a glyph object, as characters.
pub open spec fn entries_view(v: Seq<(String, Vec<Option<i64>>)>) -> Seq<(Seq<char>, Seq<Option<i64>>)> {
    v.map_values(|e: (String, Vec<Option<i64>>)| (e.0@, e.1@))
}

/// A list of names, as characters.
pub open spec fn names_view(v: Seq<&str>) -> Seq<Seq<char>> {
    v.map_values(|s: &str| s@)
}

/// Calls `serde_json::from_slice` for a `serde_json::Value`, reads
/// `lh_key` with `Value::as_i64` and the object under `glyphs_key` with
/// `Value::as_object`, each entry's `fields` with `as_i64`; named by
/// `font_json_of`.
#[verifier::external_body]
fn parse_font_json(json: &[u8], lh_key: &str, glyphs_key: &str, fields: &[&str]) -> (r: Result<
    (Option<i64>, Option<Vec<(String, Vec<Option<i64>>)>>),
    String,
>)
    ensures
        match r {
            Ok((lh, gs)) => {
                &&& font_json_of(json@, lh_key@, glyphs_key@, names_view(fields@)) == Ok::<
                    (Option<i64>, Option<Seq<(Seq<char>, Seq<Option<i64>>)>>),
                    Seq<char>,
                >(
                    (
                        lh,
                        match gs {
                            Some(v) => Some(entries_view(v@)),
                            None => None,
                        },
                    ),
                )
                &&& gs matches Some(v) ==> forall|k: int|
                    0 <= k < v.len() ==> (#[trigger] v@[k]).1.len() == fields.len()
            },
            Err(e) => font_json_of(json@, lh_key@, glyphs_key@, names_view(fields@)) == Err::<
                (Option<i64>, Option<Seq<(Seq<char>, Seq<Option<i64>>)>>),
                Seq<char>,
            >(e@),
        },
{
    let meta: serde_json::Value = serde_json::from_slice(json).map_err(|e| e.to_string())?;
    let glyphs = meta[glyphs_key].as_object().map(
        |m| m.iter().map(|(k, g)| (k.clone(), fields.iter().map(|f| g[*f].as_i64()).collect())).collect(),
    );
    Ok((meta[lh_key].as_i64(), glyphs))
}

/// One glyph of a loaded font: codepoint, atlas cell, advance and
/// offsets.
#[derive(Clone, Copy, Debug, PartialEq, Eq, Structural)]
pub struct FontGlyph {
    pub cp: i32,
    pub x: i64,
    pub y: i64,
    pub w: i64,
    pub h: i64,
    pub advance: i32,
    pub ox: i32,
    pub oy: i32,
}

/// The metadata of a loaded font: line height and glyph table.
pub struct FontMetadata {
    pub line_height: i32,
    pub glyphs: Vec<FontGlyph>,
}

/// Names of the per-glyph fields, in the order they are read.
pub open spec fn glyph_fields() -> Seq<Seq<char>> {
    seq![seq!['x'], seq!['y'], seq!['w'], seq!['h'], seq!['a', 'd', 'v', 'a', 'n', 'c', 'e'], seq!['o', 'x'], seq!['o', 'y']]
}

/// The glyph of one metadata entry, or the message naming what is wrong:
/// a key that is no `i32`, or the first field that is no integer.
pub open spec fn glyph_of(e: (Seq<char>, Seq<Option<i64>>)) -> Result<FontGlyph, Seq<char>> {
    match parse_i32_spec(e.0) {
        None => Err(seq!['g', 'l', 'y', 'p', 'h', ' ', 'k', 'e', 'y', ' '] + debug_text_of(e.0) + seq![' ', 'n', 'o', 't', ' ', 'a', 'n', ' ', 'i', 'n', 't', 'e', 'g', 'e', 'r', ' ', 'c', 'o', 'd', 'e', 'p', 'o', 'i', 'n', 't']),
        Some(cp) => {
            if e.1[0] is None {
                Err(seq!['g', 'l', 'y', 'p', 'h', '.', 'x'])
            } else if e.1[1] is None {
                Err(seq!['g', 'l', 'y', 'p', 'h', '.', 'y'])
            } else if e.1[2] is None {
                Err(seq!['g', 'l', 'y', 'p', 'h', '.', 'w'])
            } else if e.1[3] is None {
                Err(seq!['g', 'l', 'y', 'p', 'h', '.', 'h'])
            } else if e.1[4] is None {
                Err(seq!['g', 'l', 'y', 'p', 'h', '.', 'a', 'd', 'v', 'a', 'n', 'c', 'e'])
            } else if e.1[5] is None {
                Err(seq!['g', 'l', 'y', 'p', 'h', '.', 'o', 'x'])
            } else if e.1[6] is None {
                Err(seq!['g', 'l', 'y', 'p', 'h', '.', 'o', 'y'])
            } else {
                Ok(FontGlyph {
                    cp,
                    x: e.1[0]->0,
                    y: e.1[1]->0,
                    w: e.1[2]->0,
                    h: e.1[3]->0,
                    advance: e.1[4]->0 as i32,
                    ox: e.1[5]->0 as i32,
                    oy: e.1[6]->0 as i32,
                })
            }
        },
    }
}

/// The glyphs of the entries in order, or the first entry's error.
pub open spec fn glyphs_of(es: Seq<(Seq<char>, Seq<Option<i64>>)>) -> Result<Seq<FontGlyph>, Seq<char>>
    decreases es.len(),
{
    if es.len() == 0 {
        Ok(seq![])
    } else {
        match glyphs_of(es.drop_last()) {
            Err(m) => Err(m),
            Ok(gs) => match glyph_of(es.last()) {
                Err(m) => Err(m),
                Ok(g) => Ok(gs.push(g)),
            },
        }
    }
}

/// A font's metadata read from its JSON text: line height and glyph
/// table, or the message for the first thing missing.
pub open spec fn font_metadata_spec(json: Seq<u8>) -> Result<(i32, Seq<FontGlyph>), Seq<char>> {
    match font_json_of(json, seq!['l', 'i', 'n', 'e', '_', 'h', 'e', 'i', 'g', 'h', 't'], seq!['g', 'l', 'y', 'p', 'h', 's'], glyph_fields()) {
        Err(e) => Err(seq!['p', 'a', 'r', 's', 'e', ' ', 'j', 's', 'o', 'n', ':', ' '] + e),
        Ok((lh, gs)) => match lh {
            None => Err(seq!['j', 's', 'o', 'n', ' ', 'm', 'i', 's', 's', 'i', 'n', 'g', ' ', 'l', 'i', 'n', 'e', '_', 'h', 'e', 'i', 'g', 'h', 't']),
            Some(l) => match gs {
                None => Err(seq!['j', 's', 'o', 'n', ' ', 'm', 'i', 's', 's', 'i', 'n', 'g', ' ', 'g', 'l', 'y', 'p', 'h', 's', ' ', 'o', 'b', 'j', 'e', 'c', 't']),
                Some(es) => if es.len() == 0 {
                    Err(seq!['j', 's', 'o', 'n', ' ', 'h', 'a', 's', ' ', 'z', 'e', 'r', 'o', ' ', 'g', 'l', 'y', 'p', 'h', 's'])
                } else {
                    match glyphs_of(es) {
                        Err(m) => Err(m),
                        Ok(g) => Ok((l as i32, g)),
                    }
                },
            },
        },
    }
}

/// A string holding a literal.
fn lit_string(l: &str) -> (r: String)
    ensures
        r@ == l@,
{
    string_of(chars_of(l).as_slice())
}

/// The glyph of one metadata entry.
fn glyph_entry(key: &String, vals: &Vec<Option<i64>>) -> (r: Result<FontGlyph, String>)
    requires
        vals.len() == 7,
    ensures
        match r {
            Ok(g) => glyph_of((key@, vals@)) == Ok::<FontGlyph, Seq<char>>(g),
            Err(m) => glyph_of((key@, vals@)) == Err::<FontGlyph, Seq<char>>(m@),
        },
{
    let cp = match parse_i32(&chars_of(key.as_str())) {
        Some(cp) => cp,
        None => {
            let d = debug_text(key.as_str());
            proof {
                reveal_strlit("glyph key ");
                reveal_strlit(" not an integer codepoint");
                assert("glyph key "@ =~= seq!['g', 'l', 'y', 'p', 'h', ' ', 'k', 'e', 'y', ' ']);
                assert(" not an integer codepoint"@ =~= seq![' ', 'n', 'o', 't', ' ', 'a', 'n', ' ', 'i', 'n', 't', 'e', 'g', 'e', 'r', ' ', 'c', 'o', 'd', 'e', 'p', 'o', 'i', 'n', 't']);
            }
            return Err(concat3("glyph key ", d.as_str(), " not an integer codepoint"));
        },
    };

    let v0 = match vals[0] {
        Some(v) => v,
        None => {
            proof {
                reveal_strlit("glyph.x");
                assert("glyph.x"@ =~= seq!['g', 'l', 'y', 'p', 'h', '.', 'x']);
            }
            return Err(lit_string("glyph.x"));
        },
    };
    let v1 = match vals[1] {
        Some(v) => v,
        None => {
            proof {
                reveal_strlit("glyph.y");
                assert("glyph.y"@ =~= seq!['g', 'l', 'y', 'p', 'h', '.', 'y']);
            }
            return Err(lit_string("glyph.y"));
        },
    };
    let v2 = match vals[2] {
        Some(v) => v,
        None => {
            proof {
                reveal_strlit("glyph.w");
                assert("glyph.w"@ =~= seq!['g', 'l', 'y', 'p', 'h', '.', 'w']);
            }
            return Err(lit_string("glyph.w"));
        },
    };
    let v3 = match vals[3] {
        Some(v) => v,
        None => {
            proof {
                reveal_strlit("glyph.h");
                assert("glyph.h"@ =~= seq!['g', 'l', 'y', 'p', 'h', '.', 'h']);
            }
            return Err(lit_string("glyph.h"));
        },
    };
    let v4 = match vals[4] {
        Some(v) => v,
        None => {
            proof {
                reveal_strlit("glyph.advance");
                assert("glyph.advance"@ =~= seq!['g', 'l', 'y', 'p', 'h', '.', 'a', 'd', 'v', 'a', 'n', 'c', 'e']);
            }
            return Err(lit_string("glyph.advance"));
        },
    };
    let v5 = match vals[5] {
        Some(v) => v,
        None => {
            proof {
                reveal_strlit("glyph.ox");
                assert("glyph.ox"@ =~= seq!['g', 'l', 'y', 'p', 'h', '.', 'o', 'x']);
            }
            return Err(lit_string("glyph.ox"));
        },
    };
    let v6 = match vals[6] {
        Some(v) => v,
        None => {
            proof {
                reveal_strlit("glyph.oy");
                assert("glyph.oy"@ =~= seq!['g', 'l', 'y', 'p', 'h', '.', 'o', 'y']);
            }
            return Err(lit_string("glyph.oy"));
        },
    };
    Ok(FontGlyph {
        cp,
        x: v0,
        y: v1,
        w: v2,
        h: v3,
        advance: v4 as i32,
        ox: v5 as i32,
        oy: v6 as i32,
    })
}

/// Reads a baked font's metadata JSON into its line height and glyph
/// table.
pub fn parse_font_metadata(json: &[u8]) -> (r: Result<FontMetadata, String>)
    ensures
        match r {
            Ok(m) => font_metadata_spec(json@) == Ok::<(i32, Seq<FontGlyph>), Seq<char>>(
                (m.line_height, m.glyphs@),
            ),
            Err(e) => font_metadata_spec(json@) == Err::<(i32, Seq<FontGlyph>), Seq<char>>(e@),
        },
{
    let fields: [&str; 7] = ["x", "y", "w", "h", "advance", "ox", "oy"];
    proof {
        reveal_strlit("x");
        reveal_strlit("y");
        reveal_strlit("w");
        reveal_strlit("h");
        reveal_strlit("advance");
        reveal_strlit("ox");
        reveal_strlit("oy");
        reveal_strlit("line_height");
        reveal_strlit("glyphs");
        assert("x"@ =~= seq!['x']);
        assert("y"@ =~= seq!['y']);
        assert("w"@ =~= seq!['w']);
        assert("h"@ =~= seq!['h']);
        assert("advance"@ =~= seq!['a', 'd', 'v', 'a', 'n', 'c', 'e']);
        assert("ox"@ =~= seq!['o', 'x']);
        assert("oy"@ =~= seq!['o', 'y']);
        assert(fields@[0] == "x" && fields@[6] == "oy");
        assert(names_view(fields@) =~= glyph_fields());
        assert("line_height"@ =~= seq!['l', 'i', 'n', 'e', '_', 'h', 'e', 'i', 'g', 'h', 't']);
        assert("glyphs"@ =~= seq!['g', 'l', 'y', 'p', 'h', 's']);
    }
    let (lh, gs) = match parse_font_json(json, "line_height", "glyphs", fields.as_slice()) {
        Ok(x) => x,
        Err(e) => {
            proof {
                reveal_strlit("parse json: ");
                assert("parse json: "@ =~= seq!['p', 'a', 'r', 's', 'e', ' ', 'j', 's', 'o', 'n', ':', ' ']);
            }
            return Err(concat2("parse json: ", e.as_str()));
        },
    };
    let line_height = match lh {
        Some(l) => l,
        None => {
            proof {
                reveal_strlit("json missing line_height");
                assert("json missing line_height"@ =~= seq!['j', 's', 'o', 'n', ' ', 'm', 'i', 's', 's', 'i', 'n', 'g', ' ', 'l', 'i', 'n', 'e', '_', 'h', 'e', 'i', 'g', 'h', 't']);
            }
            return Err(lit_string("json missing line_height"));
        },
    };
    let entries = match gs {
        Some(es) => es,
        None => {
            proof {
                reveal_strlit("json missing glyphs object");
                assert("json missing glyphs object"@ =~= seq!['j', 's', 'o', 'n', ' ', 'm', 'i', 's', 's', 'i', 'n', 'g', ' ', 'g', 'l', 'y', 'p', 'h', 's', ' ', 'o', 'b', 'j', 'e', 'c', 't']);
            }
            return Err(lit_string("json missing glyphs object"));
        },
    };
    if entries.len() == 0 {
        proof {
            reveal_strlit("json has zero glyphs");
            assert("json has zero glyphs"@ =~= seq!['j', 's', 'o', 'n', ' ', 'h', 'a', 's', ' ', 'z', 'e', 'r', 'o', ' ', 'g', 'l', 'y', 'p', 'h', 's']);
        }
        return Err(lit_string("json has zero glyphs"));
    }
    let ghost ev = entries_view(entries@);
    let mut out: Vec<FontGlyph> = Vec::new();
    let mut i: usize = 0;
    proof {
        assert(ev.subrange(0, 0).len() == 0);
    }
    while i < entries.len()
        invariant
            i <= entries.len(),
            ev == entries_view(entries@),
            forall|k: int| 0 <= k < entries.len() ==> (#[trigger] entries@[k]).1.len() == 7,
            glyphs_of(ev.subrange(0, i as int)) == Ok::<Seq<FontGlyph>, Seq<char>>(out@),
            font_json_of(json@, seq!['l', 'i', 'n', 'e', '_', 'h', 'e', 'i', 'g', 'h', 't'], seq!['g', 'l', 'y', 'p', 'h', 's'], glyph_fields())
                == Ok::<(Option<i64>, Option<Seq<(Seq<char>, Seq<Option<i64>>)>>), Seq<char>>(
                (Some(line_height), Some(ev)),
            ),
        decreases entries.len() - i,
    {
        let ghost pre = ev.subrange(0, i + 1);
        proof {
            assert(pre.drop_last() =~= ev.subrange(0, i as int));
            assert(pre.last() == ev[i as int]);
        }
        match glyph_entry(&entries[i].0, &entries[i].1) {
            Ok(g) => {
                out.push(g);
            },
            Err(m) => {
                proof {
                    lemma_glyphs_error_sticks(ev, i as int + 1);
                }
                return Err(m);
            },
        }
        i = i + 1;
    }
    proof {
        assert(ev.subrange(0, entries.len() as int) =~= ev);
    }
    Ok(FontMetadata { line_height: line_height as i32, glyphs: out })
}

/// An error in a prefix of the entries is the error of the whole list.
proof fn lemma_glyphs_error_sticks(es: Seq<(Seq<char>, Seq<Option<i64>>)>, n: int)
    requires
        0 <= n <= es.len(),
        glyphs_of(es.subrange(0, n)) is Err,
    ensures
        glyphs_of(es) == glyphs_of(es.subrange(0, n)),
    decreases es.len() - n,
{
    if n < es.len() {
        let longer = es.subrange(0, n + 1);
        assert(longer.drop_last() =~= es.subrange(0, n));
        lemma_glyphs_error_sticks(es, n + 1);
    } else {
        assert(es.subrange(0, n) =~= es);
    }
}

} // verus!
