//! The repository data that the platform's API hands back, and the two steps
//! that turn a fetched file into its next version: decoding and bumping.
use base64::Engine as _;
use vstd::prelude::*;
use vstd::utf8::{decode_utf8, valid_utf8};

use crate::app_errors::{AppErrors, DecodeFailure, VersionFailure};
use crate::text::{
    from_chars, lemma_split_on_concat, lemma_split_on_nonempty, lemma_split_on_without_sep, same_text,
    split_on, to_chars,
};
use crate::version_bump::{bump_version, version_bump};

verus! {

/// What the platform says about the app itself.
pub struct AuthenticatedAppData {
    pub id: u128,
    pub slug: String,
    pub name: String,
}

/// A file of a repository, as the contents API returns it.
pub struct FileConteAppDataApi {
    pub type_: String,
    /// How `content` is encoded; only `base64` is understood.
    pub encoding: String,
    pub size: u64,
    pub name: String,
    pub path: String,
    pub content: String,
}

/// A tracked file after its version was increased.
pub struct FileConteAppDataDecoded {
    pub name: String,
    pub path: String,
    /// The whole new text of the file.
    pub content: String,
    /// The new `MAJOR.MINOR.PATCH`.
    pub new_version: String,
}

/// The identifier of a tree that the platform created.
pub struct GithubTreeData {
    pub sha: String,
}

/// The identifier of a commit that the platform created.
pub struct GithubCommitData {
    pub sha: String,
}

/// What base64's standard engine (padded, canonical) decodes `line` to, or
/// `None` where it refuses the line.
pub uninterp spec fn base64_standard_decoded(line: Seq<u8>) -> Option<Seq<u8>>;

/// Relies on `base64::Engine::decode_vec` with the `STANDARD` engine: it
/// appends the decoded bytes of `line` to `buffer`, or reports an error. An
/// empty line decodes to nothing (base64's own test vectors decode `""` to
/// no bytes for every engine).
#[verifier::external_body]
fn decode_base64_into(line: &[u8], buffer: &mut Vec<u8>) -> (ok: bool)
    ensures
        ok == base64_standard_decoded(line@) is Some,
        ok ==> final(buffer)@ == old(buffer)@ + base64_standard_decoded(line@)->0,
        line@.len() == 0 ==> ok && final(buffer)@ == old(buffer)@,
{
    base64::engine::general_purpose::STANDARD.decode_vec(line, buffer).is_ok()
}

/// Relies on `String::from_utf8`: it accepts exactly the valid UTF-8 byte
/// sequences and keeps the characters they encode.
#[verifier::external_body]
fn string_from_utf8(bytes: Vec<u8>) -> (r: Option<String>)
    ensures
        r is Some <==> valid_utf8(bytes@),
        r is Some ==> r->0@ == decode_utf8(bytes@),
{
    String::from_utf8(bytes).ok()
}

pub open spec fn line_feed() -> u8 {
    10u8
}

/// The bytes that a sequence of base64 lines stands for, each line decoded on
/// its own; `None` where one of them is refused.
pub open spec fn decode_lines(lines: Seq<Seq<u8>>) -> Option<Seq<u8>>
    decreases lines.len(),
{
    if lines.len() == 0 {
        Some(Seq::empty())
    } else {
        match (decode_lines(lines.drop_last()), base64_standard_decoded(lines.last())) {
            (Some(a), Some(b)) => Some(a + b),
            _ => None,
        }
    }
}

/// The bytes that base64 content broken over lines stands for.
pub open spec fn decoded_bytes(content: Seq<u8>) -> Option<Seq<u8>> {
    decode_lines(split_on(content, line_feed()))
}

/// The text that the base64 content `content` stands for, or why there is none.
pub open spec fn decoded_text(content: Seq<char>) -> Result<Seq<char>, DecodeFailure> {
    match decoded_bytes(vstd::utf8::encode_utf8(content)) {
        None => Err(DecodeFailure::InvalidBase64),
        Some(b) => if valid_utf8(b) {
            Ok(decode_utf8(b))
        } else {
            Err(DecodeFailure::InvalidUtf8)
        },
    }
}

/// Lines that follow a refused line do not make the whole acceptable.
proof fn lemma_decode_lines_refused_prefix(x: Seq<Seq<u8>>, y: Seq<Seq<u8>>)
    requires
        decode_lines(x) is None,
    ensures
        decode_lines(x + y) is None,
    decreases y.len(),
{
    if y.len() == 0 {
        assert(x + y =~= x);
    } else {
        lemma_decode_lines_refused_prefix(x, y.drop_last());
        assert((x + y).drop_last() =~= x + y.drop_last());
    }
}

/// `lines` joined by line feeds.
pub open spec fn join_lines(lines: Seq<Seq<u8>>) -> Seq<u8>
    decreases lines.len(),
{
    if lines.len() <= 1 {
        if lines.len() == 0 {
            Seq::empty()
        } else {
            lines[0]
        }
    } else {
        join_lines(lines.drop_last()) + seq![line_feed()] + lines.last()
    }
}

/// The chunks one after the other.
pub open spec fn concat_chunks(chunks: Seq<Seq<u8>>) -> Seq<u8>
    decreases chunks.len(),
{
    if chunks.len() == 0 {
        Seq::empty()
    } else {
        concat_chunks(chunks.drop_last()) + chunks.last()
    }
}

/// Splitting joined lines at line feeds gives the lines back.
proof fn lemma_split_join(lines: Seq<Seq<u8>>)
    requires
        lines.len() >= 1,
        forall|i: int| 0 <= i < lines.len() ==> !(#[trigger] lines[i]).contains(line_feed()),
    ensures
        split_on(join_lines(lines), line_feed()) == lines,
    decreases lines.len(),
{
    if lines.len() == 1 {
        lemma_split_on_without_sep(lines[0], line_feed());
        assert(lines =~= seq![lines[0]]);
    } else {
        let init = lines.drop_last();
        assert forall|i: int| 0 <= i < init.len() implies !(#[trigger] init[i]).contains(line_feed()) by {
            assert(init[i] == lines[i]);
        }
        lemma_split_join(init);
        assert(!lines.last().contains(line_feed())) by {
            assert(lines.last() == lines[lines.len() - 1]);
        }
        lemma_split_on_without_sep(lines.last(), line_feed());
        lemma_split_on_concat(join_lines(init), lines.last(), line_feed());
        assert(lines =~= init + seq![lines.last()]);
    }
}

proof fn lemma_decode_chunks(lines: Seq<Seq<u8>>, chunks: Seq<Seq<u8>>)
    requires
        lines.len() == chunks.len(),
        forall|i: int| 0 <= i < lines.len() ==> base64_standard_decoded(#[trigger] lines[i]) == Some(chunks[i]),
    ensures
        decode_lines(lines) == Some(concat_chunks(chunks)),
    decreases lines.len(),
{
    if lines.len() > 0 {
        let li = lines.drop_last();
        let ci = chunks.drop_last();
        assert forall|i: int| 0 <= i < li.len() implies base64_standard_decoded(#[trigger] li[i]) == Some(ci[i]) by {
            assert(li[i] == lines[i]);
            assert(ci[i] == chunks[i]);
        }
        lemma_decode_chunks(li, ci);
        assert(base64_standard_decoded(lines[lines.len() - 1]) == Some(chunks[chunks.len() - 1]));
    }
}

/// Base64 broken over lines loses nothing: where each line is the encoding of
/// a chunk of bytes, the content made of those lines, joined by line feeds,
/// decodes to the chunks joined in order. Content that ends in a line feed is
/// the case whose last line is empty and stands for no bytes.
pub proof fn lemma_multiline_decoding(lines: Seq<Seq<u8>>, chunks: Seq<Seq<u8>>)
    requires
        lines.len() >= 1,
        lines.len() == chunks.len(),
        forall|i: int| 0 <= i < lines.len() ==> !(#[trigger] lines[i]).contains(line_feed()),
        forall|i: int| 0 <= i < lines.len() ==> base64_standard_decoded(#[trigger] lines[i]) == Some(chunks[i]),
    ensures
        decoded_bytes(join_lines(lines)) == Some(concat_chunks(chunks)),
{
    lemma_split_join(lines);
    lemma_decode_chunks(lines, chunks);
}

/// The same for content that ends in a line feed, as the platform sends it:
/// the empty piece after the last line feed stands for no bytes, which is
/// what the decoder gives an empty line.
pub proof fn lemma_multiline_decoding_with_final_line_feed(lines: Seq<Seq<u8>>, chunks: Seq<Seq<u8>>)
    requires
        lines.len() >= 1,
        lines.len() == chunks.len(),
        forall|i: int| 0 <= i < lines.len() ==> !(#[trigger] lines[i]).contains(line_feed()),
        forall|i: int| 0 <= i < lines.len() ==> base64_standard_decoded(#[trigger] lines[i]) == Some(chunks[i]),
        base64_standard_decoded(Seq::empty()) == Some(Seq::<u8>::empty()),
    ensures
        decoded_bytes(join_lines(lines) + seq![line_feed()]) == Some(concat_chunks(chunks)),
{
    let all_lines = lines.push(Seq::empty());
    let all_chunks = chunks.push(Seq::empty());
    assert forall|i: int| 0 <= i < all_lines.len() implies !(#[trigger] all_lines[i]).contains(line_feed()) by {
        if i < lines.len() {
            assert(all_lines[i] == lines[i]);
        } else {
            assert(all_lines[i] == Seq::<u8>::empty());
        }
    }
    assert forall|i: int| 0 <= i < all_lines.len() implies base64_standard_decoded(#[trigger] all_lines[i])
        == Some(all_chunks[i]) by {
        if i < lines.len() {
            assert(all_lines[i] == lines[i]);
            assert(all_chunks[i] == chunks[i]);
        } else {
            assert(all_lines[i] == Seq::<u8>::empty());
            assert(all_chunks[i] == Seq::<u8>::empty());
        }
    }
    lemma_multiline_decoding(all_lines, all_chunks);
    assert(all_lines.drop_last() =~= lines);
    assert(all_chunks.drop_last() =~= chunks);
    assert(join_lines(all_lines) =~= join_lines(lines) + seq![line_feed()] + Seq::<u8>::empty());
    assert(join_lines(lines) + seq![line_feed()] + Seq::<u8>::empty() =~= join_lines(lines) + seq![line_feed()]);
    assert(concat_chunks(all_chunks) =~= concat_chunks(chunks) + Seq::<u8>::empty());
    assert(concat_chunks(chunks) + Seq::<u8>::empty() =~= concat_chunks(chunks));
}

impl FileConteAppDataApi {
    /// Replaces the base64 `content` by the text it stands for. Each line of
    /// the content is decoded on its own and the bytes are joined.
    pub fn decode_file(&mut self) -> (r: Result<(), AppErrors>)
        ensures
            old(self).encoding@ != "base64"@ ==> r == Err::<(), AppErrors>(
                AppErrors::FailedToDecodeFile(DecodeFailure::UnsupportedEncoding),
            ) && *final(self) == *old(self),
            old(self).encoding@ == "base64"@ ==> match decoded_text(old(self).content@) {
                Ok(text) => {
                    &&& r is Ok
                    &&& final(self).content@ == text
                    &&& final(self).type_ == old(self).type_
                    &&& final(self).encoding == old(self).encoding
                    &&& final(self).size == old(self).size
                    &&& final(self).name == old(self).name
                    &&& final(self).path == old(self).path
                },
                Err(f) => r == Err::<(), AppErrors>(AppErrors::FailedToDecodeFile(f))
                    && *final(self) == *old(self),
            },
    {
        if !same_text(self.encoding.as_str(), "base64") {
            return Err(AppErrors::FailedToDecodeFile(DecodeFailure::UnsupportedEncoding));
        }
        let bytes: &[u8] = self.content.as_str().as_bytes();
        let ghost all = bytes@;
        let mut buffer: Vec<u8> = Vec::new();
        let mut line: Vec<u8> = Vec::new();
        let mut i: usize = 0;
        assert(all.subrange(0, 0) =~= Seq::<u8>::empty());
        assert(split_on(Seq::<u8>::empty(), line_feed()).drop_last() =~= Seq::<Seq<u8>>::empty());
        while i < bytes.len()
            invariant
                bytes@ == all,
                all == vstd::utf8::encode_utf8(old(self).content@),
                old(self).encoding@ == "base64"@,
                *self == *old(self),
                i <= all.len(),
                split_on(all.subrange(0, i as int), line_feed()).last() == line@,
                decode_lines(split_on(all.subrange(0, i as int), line_feed()).drop_last()) == Some(
                    buffer@,
                ),
            decreases all.len() - i,
        {
            let b = bytes[i];
            let ghost prefix = all.subrange(0, i as int);
            let ghost next = all.subrange(0, i + 1);
            let ghost pieces = split_on(prefix, line_feed());
            assert(next.drop_last() =~= prefix);
            assert(next.last() == b);
            proof {
                lemma_split_on_nonempty(prefix, line_feed());
            }
            assert(pieces.drop_last().push(pieces.last()) =~= pieces);
            if b == 10u8 {
                let ok = decode_base64_into(line.as_slice(), &mut buffer);
                if !ok {
                    proof {
                        let rest = all.subrange(i + 1, all.len() as int);
                        assert(all =~= prefix + seq![line_feed()] + rest);
                        lemma_split_on_concat(prefix, rest, line_feed());
                        lemma_decode_lines_refused_prefix(pieces, split_on(rest, line_feed()));
                    }
                    return Err(AppErrors::FailedToDecodeFile(DecodeFailure::InvalidBase64));
                }
                line = Vec::new();
                assert(split_on(next, line_feed()).drop_last() =~= pieces);
            } else {
                line.push(b);
                assert(split_on(next, line_feed()).drop_last() =~= pieces.drop_last());
            }
            i = i + 1;
        }
        assert(all.subrange(0, all.len() as int) =~= all);
        let ghost pieces = split_on(all, line_feed());
        proof {
            lemma_split_on_nonempty(all, line_feed());
        }
        assert(pieces.drop_last().push(pieces.last()) =~= pieces);
        let ok = decode_base64_into(line.as_slice(), &mut buffer);
        if !ok {
            return Err(AppErrors::FailedToDecodeFile(DecodeFailure::InvalidBase64));
        }
        match string_from_utf8(buffer) {
            Some(text) => {
                self.content = text;
                Ok(())
            },
            None => Err(AppErrors::FailedToDecodeFile(DecodeFailure::InvalidUtf8)),
        }
    }

    /// Increases the MINOR number of the version that follows
    /// `pattern_version_to_search` in the decoded content.
    pub fn increase_version(self, pattern_version_to_search: &String) -> (r: Result<
        FileConteAppDataDecoded,
        AppErrors,
    >)
        ensures
            match version_bump(self.content@, pattern_version_to_search@) {
                Ok((text, version)) => r matches Ok(d) && d.content@ == text && d.new_version@
                    == version && d.name == self.name && d.path == self.path,
                Err(f) => r == Err::<FileConteAppDataDecoded, AppErrors>(
                    AppErrors::FailedToIncreaseVersionInFile(f),
                ),
            },
    {
        let text = to_chars(self.content.as_str());
        let pattern = to_chars(pattern_version_to_search.as_str());
        match bump_version(&text, &pattern) {
            Ok((new_text, version)) => Ok(
                FileConteAppDataDecoded {
                    name: self.name,
                    path: self.path,
                    content: from_chars(&new_text),
                    new_version: from_chars(&version),
                },
            ),
            Err(f) => Err(AppErrors::FailedToIncreaseVersionInFile(f)),
        }
    }
}

} // verus!
