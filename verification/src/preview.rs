//! Where previews are kept.

use crate::numeral;
use crate::path;
use crate::render;
use crate::uri;
use std::hash::{DefaultHasher, Hash, Hasher};
use vstd::prelude::*;

verus! {

// ---------------------------------------------------------------------------------------------
// The directory of a document
// ---------------------------------------------------------------------------------------------

/// What a string feeds into a hasher.
pub uninterp spec fn str_writes(s: Seq<char>) -> Seq<Seq<u8>>;

/// `Hash::hash` of `str` feeds the whole string into the hasher: its UTF-8, and behind it the extra
/// byte 0xFF, by which the documentation of `Hash` keeps what is fed in for two different strings
/// apart. What is fed in depends on the characters of the string alone. Into which writes it is
/// cut is left unsaid.
#[verifier::external_body]
fn hash_str(s: &str, hasher: &mut DefaultHasher)
    ensures
        final(hasher)@ == old(hasher)@ + str_writes(s@),
        final(hasher)@.flatten() == old(hasher)@.flatten() + vstd::utf8::encode_utf8(s@)
            + seq![0xffu8],
{
    s.hash(hasher)
}

/// The number that stands for a document.
pub open spec fn uri_hash(uri: Seq<char>) -> u64 {
    <DefaultHasher as vstd::std_specs::hash::DefaultHasherAdditionalSpecFns>::spec_finish(
        str_writes(uri),
    )
}

fn hash_uri(uri: &str) -> (r: u64)
    ensures
        r == uri_hash(uri@),
        r == <DefaultHasher as vstd::std_specs::hash::DefaultHasherAdditionalSpecFns>::spec_finish(
            str_writes(uri@),
        ),
        str_writes(uri@).flatten() == vstd::utf8::encode_utf8(uri@) + seq![0xffu8],
{
    let mut hasher = DefaultHasher::new();
    hash_str(uri, &mut hasher);
    assert(hasher@ =~= str_writes(uri@));
    assert(Seq::<Seq<u8>>::empty().flatten() =~= Seq::<u8>::empty());
    assert(hasher@.flatten() =~= vstd::utf8::encode_utf8(uri@) + seq![0xffu8]);
    hasher.finish()
}

/// The directory for the document that `hash` stands for.
pub open spec fn dir_for(base: Seq<u8>, hash: u64) -> Seq<u8> {
    path::join(base, path::bytes_of(numeral::hex16(hash as nat)))
}

/// The directory for the document that `hash` stands for.
pub fn preview_dir_from(base: &[u8], hash: u64) -> (r: Vec<u8>)
    ensures
        r@ == dir_for(base@, hash),
{
    let name = numeral::to_hex16(hash);
    path::join_path(base, name.as_str().as_bytes())
}

/// Stable per-document directory (`<base>/<hash>`), holding just this document's preview.
pub fn preview_dir(base: &[u8], uri: &str) -> (r: Vec<u8>)
    ensures
        r@ == dir_for(base@, uri_hash(uri@)),
        exists|fed: Seq<Seq<u8>>| #[trigger]
            fed.flatten() == vstd::utf8::encode_utf8(uri@) + seq![0xffu8] && r@ == dir_for(
                base@,
                <DefaultHasher as vstd::std_specs::hash::DefaultHasherAdditionalSpecFns>::spec_finish(
                    fed,
                ),
            ),
{
    preview_dir_from(base, hash_uri(uri))
}

/// The file name of the preview of the document at `source`: its stem, so that the tab reads
/// `diagram.png` rather than a hash, or `diagram` where it has none that is text.
pub open spec fn preview_name(source: Seq<u8>) -> Seq<u8> {
    let stem = match path::file_stem(source) {
        Some(stem) if vstd::utf8::valid_utf8(stem) => stem,
        _ => path::bytes_of("diagram"@),
    };
    stem + path::bytes_of(".png"@)
}

/// The preview of the document at `source`, in `dir`.
pub open spec fn preview_file(dir: Seq<u8>, source: Seq<u8>) -> Seq<u8> {
    path::join(dir, preview_name(source))
}

/// The preview of the document at `source`, in `dir`.
pub fn preview_path_from(dir: &[u8], source: &[u8]) -> (r: Vec<u8>)
    ensures
        r@ == preview_file(dir@, source@),
{
    let mut name: Vec<u8> = match path::get_file_stem(source) {
        Some(stem) => if path::is_utf8(&stem) {
            stem
        } else {
            path::copy("diagram".as_bytes())
        },
        None => path::copy("diagram".as_bytes()),
    };
    path::push_bytes(&mut name, ".png".as_bytes());
    path::join_path(dir, &name)
}

/// Whether rendering the preview of the document at `source` in `dir` would touch the document: it
/// is the preview, or `dir`.
pub open spec fn onto_source(dir: Seq<u8>, source: Seq<u8>) -> bool {
    source == preview_file(dir, source) || source == path::tidy(dir)
}

/// Why a document has no preview.
pub enum PreviewError {
    /// It has no path.
    Source(uri::SourcePathError),
    /// The preview would replace it. This holds its URI.
    OntoSource(String),
}

impl PreviewError {
    /// What the user is told.
    pub open spec fn text(self) -> Seq<char> {
        match self {
            PreviewError::Source(error) => error.text(),
            PreviewError::OntoSource(uri) => "preview would replace its source: "@ + uri@,
        }
    }

    /// What the user is told.
    pub fn message(&self) -> (r: String)
        ensures
            r@ == self.text(),
    {
        match self {
            PreviewError::Source(error) => error.message(),
            PreviewError::OntoSource(uri) => "preview would replace its source: ".to_owned().concat(
                uri.as_str(),
            ),
        }
    }
}

/// What the user is told of a document that has no path, and thus no preview.
pub open spec fn unplaced(uri: Seq<char>) -> Option<Seq<char>> {
    if !uri::url_parses(uri) {
        Some("parsing document uri"@)
    } else if uri::url_file_path(uri) is None {
        Some("document is not a local file: "@ + uri)
    } else {
        None
    }
}

/// Where the preview of the document `uri` is, or what the user is told where it has none.
pub open spec fn place(base: Seq<u8>, uri: Seq<char>) -> Result<Seq<u8>, Seq<char>> {
    let dir = dir_for(base, uri_hash(uri));
    let source = uri::url_file_path(uri)->0;
    match unplaced(uri) {
        Some(message) => Err(message),
        None => if onto_source(dir, source) {
            Err("preview would replace its source: "@ + uri)
        } else {
            Ok(preview_file(dir, source))
        },
    }
}

/// Stable per-document path, so re-rendering overwrites the file the preview tab holds open. The
/// basename is the source's, so the tab reads `diagram.png` rather than a hash.
pub fn preview_path(base: &[u8], uri: &str) -> (r: Result<Vec<u8>, PreviewError>)
    ensures
        match r {
            Ok(p) => place(base@, uri@) == Ok::<Seq<u8>, Seq<char>>(p@),
            Err(error) => place(base@, uri@) == Err::<Seq<u8>, Seq<char>>(error.text()),
        },
        match r {
            Ok(_) => true,
            Err(PreviewError::Source(uri::SourcePathError::Unparsable)) => !uri::url_parses(uri@),
            Err(PreviewError::Source(uri::SourcePathError::NotLocal(u))) => u@ == uri@
                && uri::url_parses(uri@) && uri::url_file_path(uri@) is None,
            Err(PreviewError::OntoSource(u)) => u@ == uri@ && unplaced(uri@) is None,
        },
        r is Ok ==> exists|fed: Seq<Seq<u8>>| #[trigger]
            fed.flatten() == vstd::utf8::encode_utf8(uri@) + seq![0xffu8] && path::parent(
                (r->Ok_0)@,
            ) == Some(
                dir_for(
                    base@,
                    <DefaultHasher as vstd::std_specs::hash::DefaultHasherAdditionalSpecFns>::spec_finish(
                        fed,
                    ),
                ),
            ),
{
    match uri::source_path(uri) {
        Ok(source) => {
            let dir = preview_dir(base, uri);
            let target = preview_path_from(&dir, &source);
            proof {
                preview_dir_is_tidy(base@, uri_hash(uri@));
                preview_is_a_png_in_its_dir(dir@, source@);
                let fed = choose|fed: Seq<Seq<u8>>| #[trigger]
                    fed.flatten() == vstd::utf8::encode_utf8(uri@) + seq![0xffu8] && dir@ == dir_for(
                        base@,
                        <DefaultHasher as vstd::std_specs::hash::DefaultHasherAdditionalSpecFns>::spec_finish(
                            fed,
                        ),
                    );
                preview_dir_is_tidy(
                    base@,
                    <DefaultHasher as vstd::std_specs::hash::DefaultHasherAdditionalSpecFns>::spec_finish(
                        fed,
                    ),
                );
                assert(path::parent(target@) == Some(dir@));
            }
            if path::same_bytes(&source, &target) || path::same_bytes(&source, &dir) {
                Err(PreviewError::OntoSource(uri.to_owned()))
            } else {
                Ok(target)
            }
        },
        Err(e) => Err(PreviewError::Source(e)),
    }
}

// ---------------------------------------------------------------------------------------------
// What holds of these places
// ---------------------------------------------------------------------------------------------

proof fn lemma_hex_name(hash: u64)
    ensures
        path::plain_name(path::bytes_of(numeral::hex16(hash as nat))),
{
    let chars = numeral::hex16(hash as nat);
    numeral::numeral_is_digits(hash as nat, 16);
    let digits = numeral::numeral(hash as nat, 16);
    assert forall|i: int| 0 <= i < chars.len() implies '0' <= #[trigger] chars[i] <= '9' || 'a'
        <= chars[i] <= 'f' by {
        if digits.len() < 16 && i >= 16 - digits.len() {
            assert(chars[i] == digits[i - (16 - digits.len())]);
        }
    }
    vstd::utf8::is_ascii_chars_encode_utf8(chars);
    let bytes = path::bytes_of(chars);
    assert forall|i: int| 0 <= i < bytes.len() implies bytes[i] != path::SEP && bytes[i]
        != path::DOT by {
        assert('0' <= chars[i] <= '9' || 'a' <= chars[i] <= 'f');
    }
    if bytes.len() > 0 {
        assert(bytes[0] != path::DOT);
    }
}

/// A document's directory lies directly in the base directory and is never the base directory
/// itself, so that removing the one leaves the other.
pub proof fn preview_dir_is_below_base(base: Seq<u8>, hash: u64)
    ensures
        path::parent(dir_for(base, hash)) == Some(path::tidy(base)),
        base.is_prefix_of(dir_for(base, hash)),
        dir_for(base, hash) != base,
{
    lemma_hex_name(hash);
    path::joined_path_is_in_dir(base, path::bytes_of(numeral::hex16(hash as nat)));
}

/// A document's directory has neither separators nor `.` components at its end.
pub proof fn preview_dir_is_tidy(base: Seq<u8>, hash: u64)
    ensures
        path::tidy(dir_for(base, hash)) == dir_for(base, hash),
{
    lemma_hex_name(hash);
    path::joined_path_is_in_dir(base, path::bytes_of(numeral::hex16(hash as nat)));
}

/// Documents that different numbers stand for have different directories.
pub proof fn preview_dirs_are_distinct(base: Seq<u8>, a: u64, b: u64)
    requires
        a != b,
    ensures
        dir_for(base, a) != dir_for(base, b),
{
    let x = numeral::hex16(a as nat);
    let y = numeral::hex16(b as nat);
    lemma_hex_name(a);
    lemma_hex_name(b);
    path::joined_path_is_in_dir(base, path::bytes_of(x));
    path::joined_path_is_in_dir(base, path::bytes_of(y));
    if dir_for(base, a) == dir_for(base, b) {
        vstd::utf8::encode_utf8_decode_utf8(x);
        vstd::utf8::encode_utf8_decode_utf8(y);
        numeral::hex16_is_injective(a as nat, b as nat);
    }
}

/// A preview is a PNG that lies directly in its document's directory.
pub proof fn preview_is_a_png_in_its_dir(dir: Seq<u8>, source: Seq<u8>)
    ensures
        path::parent(preview_file(dir, source)) == Some(path::tidy(dir)),
        path::file_name(preview_file(dir, source)) == Some(preview_name(source)),
        path::extension(preview_file(dir, source)) == Some(path::bytes_of("png"@)),
{
    let stem = match path::file_stem(source) {
        Some(stem) if vstd::utf8::valid_utf8(stem) => stem,
        _ => path::bytes_of("diagram"@),
    };
    let name = preview_name(source);
    let suffix = path::bytes_of(".png"@);
    let ext = path::bytes_of("png"@);
    reveal_strlit("diagram");
    reveal_strlit(".png");
    reveal_strlit("png");
    vstd::utf8::is_ascii_chars_encode_utf8("diagram"@);
    vstd::utf8::is_ascii_chars_encode_utf8(".png"@);
    vstd::utf8::is_ascii_chars_encode_utf8("png"@);
    if path::file_stem(source) is Some {
        path::file_stem_is_plain(source);
    }
    assert(stem.len() > 0 && !stem.contains(path::SEP));
    assert(suffix =~= seq![path::DOT, 112u8, 110u8, 103u8]);
    assert(ext =~= seq![112u8, 110u8, 103u8]);
    if name.contains(path::SEP) {
        let i = choose|i: int| 0 <= i < name.len() && name[i] == path::SEP;
        if i < stem.len() {
            assert(stem[i] == path::SEP);
        } else {
            assert(suffix[i - stem.len()] == path::SEP);
        }
    }
    assert(name.len() > 2);
    path::joined_path_is_in_dir(dir, name);
    path::last_dot_is(name, stem.len() as int);
    assert(name.skip(stem.len() as int + 1) =~= ext);
}

proof fn lemma_staged_preview_is_not_source(file: Seq<u8>, dir: Seq<u8>, pid: u32, serial: u64)
    ensures
        file != path::join(
            path::parent(preview_file(dir, file))->0,
            render::staged_name(preview_file(dir, file), pid, serial),
        ),
{
    let output = preview_file(dir, file);
    let staged = path::join(
        path::parent(output)->0,
        render::staged_name(output, pid, serial),
    );
    preview_is_a_png_in_its_dir(dir, file);
    render::staged_stem_is_text(output, pid, serial);
    if staged == file {
        let stem = path::file_stem(file)->0;
        vstd::utf8::encode_utf8_valid_utf8(".png"@);
        vstd::utf8::valid_utf8_concat(stem, path::bytes_of(".png"@));
        render::staged_file_is_no_file_of_the_outputs_stem(output, pid, serial, file);
    }
}

/// No stage of the render of a preview that is not refused touches the source file, unless that is
/// the input in a scratch directory.
pub proof fn preview_leaves_source_file_alone(
    source: Seq<char>,
    file: Seq<u8>,
    dir: Seq<u8>,
    stages: Seq<render::Stage>,
    events: Seq<render::RenderEvent>,
    i: int,
)
    requires
        render::course(source, preview_file(dir, file), stages, events),
        0 <= i < stages.len(),
        !onto_source(dir, file),
        !render::scratch_input(events, file),
    ensures
        !render::touched(preview_file(dir, file), stages[i]).contains(file),
{
    let output = preview_file(dir, file);
    preview_is_a_png_in_its_dir(dir, file);
    if render::touched(output, stages[i]).contains(file) {
        render::render_touches_only_its_own(source, output, stages, events, i, file);
        if render::staged_for(output, file) {
            let (pid, serial) = choose|pid: u32, serial: u64|
                file == path::join(
                    path::parent(output)->0,
                    #[trigger] render::staged_name(output, pid, serial),
                );
            lemma_staged_preview_is_not_source(file, dir, pid, serial);
        }
    }
}

// ---------------------------------------------------------------------------------------------
// How documents are kept apart
// ---------------------------------------------------------------------------------------------

/// The number that stands for a document is what the hasher gives once it was fed the whole URI, and
/// its directory has that number for its name, in sixteen hexadecimal digits, in the base
/// directory.
pub proof fn directory_is_named_by_the_whole_uri(base: Seq<u8>, uri: Seq<char>, hash: u64)
    ensures
        uri_hash(uri)
            == <DefaultHasher as vstd::std_specs::hash::DefaultHasherAdditionalSpecFns>::spec_finish(
            str_writes(uri),
        ),
        dir_for(base, hash) == path::join(
            base,
            vstd::utf8::encode_utf8(numeral::hex16(hash as nat)),
        ),
        path::file_name(dir_for(base, hash)) == Some(
            vstd::utf8::encode_utf8(numeral::hex16(hash as nat)),
        ),
        path::parent(dir_for(base, hash)) == Some(path::tidy(base)),
{
    lemma_hex_name(hash);
    path::joined_path_is_in_dir(base, path::bytes_of(numeral::hex16(hash as nat)));
}

/// What the hasher is fed for two different URIs is different, however long they are and however
/// much of their beginnings they share.
pub proof fn different_uris_are_hashed_from_different_bytes(
    a: Seq<char>,
    b: Seq<char>,
    fed_a: Seq<Seq<u8>>,
    fed_b: Seq<Seq<u8>>,
)
    requires
        a != b,
        fed_a.flatten() == vstd::utf8::encode_utf8(a) + seq![0xffu8],
        fed_b.flatten() == vstd::utf8::encode_utf8(b) + seq![0xffu8],
    ensures
        fed_a != fed_b,
        fed_a.flatten() != fed_b.flatten(),
{
    let x = vstd::utf8::encode_utf8(a);
    let y = vstd::utf8::encode_utf8(b);
    vstd::utf8::encode_utf8_decode_utf8(a);
    vstd::utf8::encode_utf8_decode_utf8(b);
    if fed_a.flatten() == fed_b.flatten() {
        assert(x =~= (x + seq![0xffu8]).drop_last());
        assert(y =~= (y + seq![0xffu8]).drop_last());
    }
}

/// The preview of a document has the stem of its file, where that is text, and is a PNG.
pub proof fn preview_is_named_after_its_document(dir: Seq<u8>, source: Seq<u8>)
    ensures
        path::file_stem(source) is Some && vstd::utf8::valid_utf8(path::file_stem(source)->0)
            ==> path::file_name(preview_file(dir, source)) == Some(
            path::file_stem(source)->0 + vstd::utf8::encode_utf8(".png"@),
        ),
        !(path::file_stem(source) is Some && vstd::utf8::valid_utf8(path::file_stem(source)->0))
            ==> path::file_name(preview_file(dir, source)) == Some(
            vstd::utf8::encode_utf8("diagram"@) + vstd::utf8::encode_utf8(".png"@),
        ),
        path::parent(preview_file(dir, source)) == Some(path::tidy(dir)),
{
    preview_is_a_png_in_its_dir(dir, source);
}

/// A document has a preview wherever its URI is that of a local file, unless that file is the
/// preview or the preview's directory. The preview lies in the document's own directory.
pub proof fn every_local_document_has_a_place(base: Seq<u8>, uri: Seq<char>)
    ensures
        ({
            let dir = dir_for(
                base,
                <DefaultHasher as vstd::std_specs::hash::DefaultHasherAdditionalSpecFns>::spec_finish(
                    str_writes(uri),
                ),
            );
            let file = uri::url_file_path(uri)->0;
            &&& !uri::url_parses(uri) ==> place(base, uri) == Err::<Seq<u8>, Seq<char>>(
                "parsing document uri"@,
            )
            &&& uri::url_parses(uri) && uri::url_file_path(uri) is None ==> place(base, uri)
                == Err::<Seq<u8>, Seq<char>>("document is not a local file: "@ + uri)
            &&& uri::url_parses(uri) && uri::url_file_path(uri) is Some && (file == preview_file(
                dir,
                file,
            ) || file == dir) ==> place(base, uri) == Err::<Seq<u8>, Seq<char>>(
                "preview would replace its source: "@ + uri,
            )
            &&& uri::url_parses(uri) && uri::url_file_path(uri) is Some && file != preview_file(
                dir,
                file,
            ) && file != dir ==> place(base, uri) == Ok::<Seq<u8>, Seq<char>>(
                preview_file(dir, file),
            ) && path::parent(preview_file(dir, file)) == Some(dir)
            &&& unplaced(uri) is Some <==> !uri::url_parses(uri) || uri::url_file_path(uri) is None
        }),
{
    let hash = uri_hash(uri);
    preview_dir_is_tidy(base, hash);
    preview_is_a_png_in_its_dir(dir_for(base, hash), uri::url_file_path(uri)->0);
}

/// Two documents that the hasher tells apart have their previews in two directories, so that
/// rendering or removing the one leaves the other alone.
pub proof fn documents_have_previews_of_their_own(base: Seq<u8>, a: Seq<char>, b: Seq<char>)
    requires
        <DefaultHasher as vstd::std_specs::hash::DefaultHasherAdditionalSpecFns>::spec_finish(
            str_writes(a),
        )
            != <DefaultHasher as vstd::std_specs::hash::DefaultHasherAdditionalSpecFns>::spec_finish(
            str_writes(b),
        ),
        place(base, a) is Ok,
        place(base, b) is Ok,
    ensures
        place(base, a)->Ok_0 != place(base, b)->Ok_0,
        path::parent(place(base, a)->Ok_0) != path::parent(place(base, b)->Ok_0),
{
    every_local_document_has_a_place(base, a);
    every_local_document_has_a_place(base, b);
    preview_dirs_are_distinct(base, uri_hash(a), uri_hash(b));
}

/// What the user is told of a document without a preview names the whole URI.
pub proof fn errors_are_told_whole(error: PreviewError)
    ensures
        error is OntoSource ==> error.text() == "preview would replace its source: "@
            + error->OntoSource_0@,
        error is Source ==> error.text() == error->Source_0.text(),
{
}

} // verus!
