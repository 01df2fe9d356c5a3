//! Exporting a diagram to a file beside its source.

use crate::path;
use crate::render;
use crate::uri;
use vstd::prelude::*;

verus! {

/// Why a document is not exported.
pub enum ExportError {
    /// It has no path.
    Source(uri::SourcePathError),
    /// The export would replace it. This holds its URI.
    OntoSource(String),
}

impl ExportError {
    /// What the user is told.
    pub open spec fn text(self) -> Seq<char> {
        match self {
            ExportError::Source(error) => error.text(),
            ExportError::OntoSource(uri) => "export would replace its source: "@ + uri@,
        }
    }

    /// What the user is told.
    pub fn message(&self) -> (r: String)
        ensures
            r@ == self.text(),
    {
        match self {
            ExportError::Source(error) => error.message(),
            ExportError::OntoSource(uri) => "export would replace its source: ".to_owned().concat(
                uri.as_str(),
            ),
        }
    }
}

/// Where the diagram at `source` is exported to: its path with the extension `format`. A path
/// without a file name stays as it is.
pub open spec fn export_file(source: Seq<u8>, format: Seq<char>) -> Seq<u8> {
    path::with_extension(source, path::bytes_of(format))
}

/// Whether an export would replace its source: that is a file, and the export has the same name in
/// the same directory.
pub open spec fn onto_source(source: Seq<u8>, format: Seq<char>) -> bool {
    &&& path::file_name(source) is Some
    &&& path::file_name(export_file(source, format)) == path::file_name(source)
    &&& path::parent(export_file(source, format)) == path::parent(source)
}

/// With a format that can be an extension, as `png` and `svg` are, the sources that an export
/// would replace are those that have that extension.
pub proof fn sources_with_the_extension_are_replaced(source: Seq<u8>, format: Seq<char>)
    requires
        path::plain_extension(path::bytes_of(format)),
    ensures
        onto_source(source, format) <==> path::extension(source) == Some(path::bytes_of(format)),
{
    let ext = path::bytes_of(format);
    if path::file_name(source) is Some {
        let name = path::file_name(source)->0;
        let stem = path::file_stem(source)->0;
        path::with_extension_keeps_stem(source, ext);
        path::with_extension_changes_only_that(source, ext);
        if path::extension(source) == Some(ext) {
            path::last_dot_of_extension(name);
            assert(name =~= stem.push(path::DOT) + ext);
        }
    }
}

/// An export lies beside its source, under the source's stem with the extension of its format, and
/// is another file.
pub proof fn export_lies_beside_its_source(source: Seq<u8>, format: Seq<char>)
    requires
        path::plain_extension(path::bytes_of(format)),
        path::file_name(source) is Some,
        !onto_source(source, format),
    ensures
        path::parent(export_file(source, format)) == path::parent(source),
        path::file_stem(export_file(source, format)) == path::file_stem(source),
        path::extension(export_file(source, format)) == Some(path::bytes_of(format)),
        export_file(source, format) != source,
{
    path::with_extension_changes_only_that(source, path::bytes_of(format));
}

/// `png` and `svg` can be extensions.
pub proof fn png_and_svg_are_formats()
    ensures
        path::plain_extension(path::bytes_of("png"@)),
        path::plain_extension(path::bytes_of("svg"@)),
{
    reveal_strlit("png");
    reveal_strlit("svg");
    vstd::utf8::is_ascii_chars_encode_utf8("png"@);
    vstd::utf8::is_ascii_chars_encode_utf8("svg"@);
    assert(path::bytes_of("png"@) =~= seq![112u8, 110u8, 103u8]);
    assert(path::bytes_of("svg"@) =~= seq![115u8, 118u8, 103u8]);
}

/// Where the diagram at `source` is exported to, or nothing where that would replace it.
pub fn export_target(source: &[u8], format: &str) -> (r: Option<Vec<u8>>)
    ensures
        r is None <==> onto_source(source@, format@),
        r matches Some(target) ==> target@ == export_file(source@, format@),
        r is Some && path::file_name(source@) is Some ==> (r->0)@ != source@,
        path::plain_extension(path::bytes_of(format@)) ==> (r is None <==> path::extension(source@)
            == Some(path::bytes_of(format@))),
{
    proof {
        if path::plain_extension(path::bytes_of(format@)) {
            sources_with_the_extension_are_replaced(source@, format@);
        }
    }
    let target = path::set_extension(source, format.as_bytes());
    let same_name = match (path::get_file_name(&target), path::get_file_name(source)) {
        (Some(a), Some(b)) => path::same_bytes(&a, &b),
        _ => false,
    };
    let same_dir = match (path::get_parent(&target), path::get_parent(source)) {
        (Some(a), Some(b)) => path::same_bytes(&a, &b),
        (None, None) => true,
        _ => false,
    };
    if same_name && same_dir {
        None
    } else {
        Some(target)
    }
}

/// Where the document `uri` is exported to. Export writes next to the source file, and never onto
/// it.
pub fn export(uri: &str, format: &str) -> (r: Result<Vec<u8>, ExportError>)
    ensures
        match r {
            Ok(target) => {
                &&& uri::url_parses(uri@)
                &&& uri::url_file_path(uri@) is Some
                &&& !onto_source(uri::url_file_path(uri@)->0, format@)
                &&& target@ == export_file(uri::url_file_path(uri@)->0, format@)
                &&& path::file_name(uri::url_file_path(uri@)->0) is Some ==> target@
                    != uri::url_file_path(uri@)->0
            },
            Err(ExportError::Source(uri::SourcePathError::Unparsable)) => !uri::url_parses(uri@),
            Err(ExportError::Source(uri::SourcePathError::NotLocal(u))) => u@ == uri@
                && uri::url_parses(uri@) && uri::url_file_path(uri@) is None,
            Err(ExportError::OntoSource(u)) => {
                &&& u@ == uri@
                &&& uri::url_parses(uri@)
                &&& uri::url_file_path(uri@) is Some
                &&& onto_source(uri::url_file_path(uri@)->0, format@)
            },
        },
        path::plain_extension(path::bytes_of(format@)) && uri::url_parses(uri@)
            && uri::url_file_path(uri@) is Some ==> (r is Err <==> path::extension(
            uri::url_file_path(uri@)->0,
        ) == Some(path::bytes_of(format@))),
{
    match uri::source_path(uri) {
        Ok(source) => match export_target(&source, format) {
            Some(target) => Ok(target),
            None => Err(ExportError::OntoSource(uri.to_owned())),
        },
        Err(error) => Err(ExportError::Source(error)),
    }
}

proof fn lemma_staged_export_is_not_source(
    file: Seq<u8>,
    format: Seq<char>,
    pid: u32,
    serial: u64,
)
    requires
        path::file_name(file) is Some,
        path::parent(export_file(file, format)) is Some,
        !path::bytes_of(format).contains(path::SEP),
    ensures
        file != path::join(
            path::parent(export_file(file, format))->0,
            render::staged_name(export_file(file, format), pid, serial),
        ),
{
    let output = export_file(file, format);
    let ext = path::bytes_of(format);
    let stem = path::file_stem(file)->0;
    render::staged_stem_is_text(output, pid, serial);
    if file == path::join(
        path::parent(output)->0,
        render::staged_name(output, pid, serial),
    ) {
        path::file_stem_is_plain(file);
        assert(stem.len() > 5);
        path::with_extension_keeps_stem(file, ext);
        path::dot_is_utf8();
        vstd::utf8::encode_utf8_valid_utf8(format);
        vstd::utf8::valid_utf8_concat(stem, seq![path::DOT]);
        vstd::utf8::valid_utf8_concat(stem + seq![path::DOT], ext);
        assert(stem + seq![path::DOT] + ext =~= stem.push(path::DOT) + ext);
        render::staged_file_is_no_file_of_the_outputs_stem(output, pid, serial, file);
    }
}

/// No stage of an export that is not refused touches the source file, unless that is the input in
/// a scratch directory. A path that ends in `..` is no file, and a format holds no separator.
pub proof fn export_leaves_source_file_alone(
    source: Seq<char>,
    file: Seq<u8>,
    format: Seq<char>,
    stages: Seq<render::Stage>,
    events: Seq<render::RenderEvent>,
    i: int,
)
    requires
        path::file_name(file) is Some || path::parent(file) is None,
        !path::bytes_of(format).contains(path::SEP),
        !onto_source(file, format),
        render::course(source, export_file(file, format), stages, events),
        0 <= i < stages.len(),
        !render::scratch_input(events, file),
    ensures
        !render::touched(export_file(file, format), stages[i]).contains(file),
{
    let output = export_file(file, format);
    let ext = path::bytes_of(format);
    if render::touched(output, stages[i]).contains(file) {
        render::render_touches_only_its_own(source, output, stages, events, i, file);
        if render::staged_for(output, file) {
            let (pid, serial) = choose|pid: u32, serial: u64|
                file == path::join(
                    path::parent(output)->0,
                    #[trigger] render::staged_name(output, pid, serial),
                );
            lemma_staged_export_is_not_source(file, format, pid, serial);
        }
        if path::parent(output) == Some(file) {
            path::parent_is_shorter(output);
            if ext.len() > 0 {
                path::with_extension_keeps_stem(file, ext);
                path::parent_is_shorter(file);
            } else {
                assert(ext =~= Seq::empty());
                path::without_extension_is_no_longer(file);
            }
        }
    }
}

/// An export has the path of its source, byte for byte, up to the dot behind the stem, and then its
/// format. It would replace its source exactly where that has this extension already.
pub proof fn export_differs_in_its_extension_only(
    before: Seq<u8>,
    stem: Seq<u8>,
    old_ext: Seq<u8>,
    format: Seq<char>,
)
    requires
        before.len() > 0 ==> before[before.len() - 1] == 47,
        stem.len() > 0,
        forall|i: int| 0 <= i < stem.len() ==> stem[i] != 47,
        forall|i: int| 0 <= i < old_ext.len() ==> old_ext[i] != 47 && old_ext[i] != 46,
        stem != seq![46u8] || old_ext.len() > 0,
        path::plain_extension(vstd::utf8::encode_utf8(format)),
    ensures
        export_file(before + (stem + seq![46u8] + old_ext), format) == before + stem + seq![46u8]
            + vstd::utf8::encode_utf8(format),
        onto_source(before + (stem + seq![46u8] + old_ext), format) <==> old_ext
            == vstd::utf8::encode_utf8(format),
{
    let name = stem + seq![46u8] + old_ext;
    let n = stem.len() as int;
    path::new_extension_takes_the_place_of_the_old(
        before,
        stem,
        old_ext,
        vstd::utf8::encode_utf8(format),
    );
    assert forall|i: int| 0 <= i < name.len() implies name[i] != 47 by {
        if i < n {
            assert(name[i] == stem[i]);
        } else if i > n {
            assert(name[i] == old_ext[i - (n + 1)]);
        }
    }
    assert(name.len() >= 2);
    if name == seq![46u8, 46u8] {
        assert(stem =~= seq![46u8]);
    }
    path::last_name_is_the_file_name(before, name);
    path::extension_stands_behind_the_last_dot(stem, old_ext);
    sources_with_the_extension_are_replaced(before + name, format);
}

/// What the user is told of an export that is refused names the whole URI.
pub proof fn errors_are_told_whole(error: ExportError)
    ensures
        error is OntoSource ==> error.text() == "export would replace its source: "@
            + error->OntoSource_0@,
        error is Source ==> error.text() == error->Source_0.text(),
{
}

/// An export would replace its source only where that is a file, and the path with the extension of
/// the format has the same name in the same directory.
pub proof fn only_the_same_name_beside_is_replaced(source: Seq<u8>, format: Seq<char>)
    ensures
        export_file(source, format) == path::with_extension(
            source,
            vstd::utf8::encode_utf8(format),
        ),
        onto_source(source, format) <==> path::file_name(source) is Some && path::file_name(
            path::with_extension(source, vstd::utf8::encode_utf8(format)),
        ) == path::file_name(source) && path::parent(
            path::with_extension(source, vstd::utf8::encode_utf8(format)),
        ) == path::parent(source),
{
}

} // verus!
