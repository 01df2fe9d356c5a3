//! Rendering one diagram with the Mermaid CLI, `mmdc`.
//!
//! A render is a conversation: a `RenderJob` says what to do next by its stage, and is told how
//! that went by an event.

use crate::diagram;
use crate::numeral;
use crate::path;
use crate::serial;
use crate::text;
use vstd::prelude::*;

verus! {

/// Scale factor for PNG output. Zed's image viewer zooms, so render above display resolution to
/// keep the diagram sharp when zoomed in.
pub const PNG_SCALE: &'static str = "6";

/// Wall-clock budget for a single mmdc invocation. mmdc boots Chromium; if that hangs (crashed
/// sandbox, no display, ...) the render thread would otherwise wait forever.
pub const RENDER_TIMEOUT_SECS: u64 = 30;

// ---------------------------------------------------------------------------------------------
// Errors
// ---------------------------------------------------------------------------------------------

/// Why a diagram was not rendered.
pub enum RenderError {
    EmptyDiagram,
    MmdcNotFound,
    NoParent,
    CreatingDir { dir: Vec<u8> },
    CreatingScratch,
    WritingSource,
    RunningMmdc,
    WaitingForMmdc,
    TimedOut,
    Failed { summary: String },
    MovingIntoPlace { output: Vec<u8> },
}

impl RenderError {
    /// What the user is told.
    pub open spec fn text(self) -> Seq<char> {
        match self {
            RenderError::EmptyDiagram => "diagram is empty"@,
            RenderError::MmdcNotFound =>
                "mmdc not found. Install it with: npm install -g @mermaid-js/mermaid-cli"@,
            RenderError::NoParent => "output path has no parent directory"@,
            RenderError::CreatingDir { dir } => "creating "@ + path::shown(dir@),
            RenderError::CreatingScratch => "creating temp dir"@,
            RenderError::WritingSource => "writing diagram source"@,
            RenderError::RunningMmdc => "running mmdc"@,
            RenderError::WaitingForMmdc => "waiting for mmdc"@,
            RenderError::TimedOut => "mmdc timed out after "@ + numeral::decimal(
                RENDER_TIMEOUT_SECS as nat,
            ) + "s"@,
            RenderError::Failed { summary } => summary@,
            RenderError::MovingIntoPlace { output } => "moving render into place at "@
                + path::shown(output@),
        }
    }

    /// What the user is told.
    pub fn message(&self) -> (r: String)
        ensures
            r@ == self.text(),
    {
        match self {
            RenderError::EmptyDiagram => "diagram is empty".to_owned(),
            RenderError::MmdcNotFound =>
                "mmdc not found. Install it with: npm install -g @mermaid-js/mermaid-cli".to_owned(),
            RenderError::NoParent => "output path has no parent directory".to_owned(),
            RenderError::CreatingDir { dir } => "creating ".to_owned().concat(
                path::show(dir).as_str(),
            ),
            RenderError::CreatingScratch => "creating temp dir".to_owned(),
            RenderError::WritingSource => "writing diagram source".to_owned(),
            RenderError::RunningMmdc => "running mmdc".to_owned(),
            RenderError::WaitingForMmdc => "waiting for mmdc".to_owned(),
            RenderError::TimedOut => "mmdc timed out after ".to_owned().concat(
                numeral::to_decimal(RENDER_TIMEOUT_SECS).as_str(),
            ).concat("s"),
            RenderError::Failed { summary } => summary.clone(),
            RenderError::MovingIntoPlace { output } => "moving render into place at ".to_owned().concat(
                path::show(output).as_str(),
            ),
        }
    }
}

// ---------------------------------------------------------------------------------------------
// Finding the CLI
// ---------------------------------------------------------------------------------------------

/// Where the Mermaid CLI is: where `MMDC_PATH` says, if there is a file, and else where the search
/// path has it.
pub fn mmdc_path(configured: Option<String>, configured_is_file: bool, found: Option<Vec<u8>>) -> (r:
    Result<Vec<u8>, RenderError>)
    ensures
        match r {
            Ok(p) => if configured is Some && configured_is_file {
                p@ == path::bytes_of((configured->0)@)
            } else {
                found == Some(p)
            },
            Err(e) => e is MmdcNotFound && found is None && !(configured is Some
                && configured_is_file),
        },
{
    if let Some(configured) = configured {
        if configured_is_file {
            return Ok(path::copy(configured.as_str().as_bytes()));
        }
    }
    match found {
        Some(p) => Ok(p),
        None => Err(RenderError::MmdcNotFound),
    }
}

// ---------------------------------------------------------------------------------------------
// Formats, staged files and arguments
// ---------------------------------------------------------------------------------------------

/// The format of `output`, which its extension selects.
pub open spec fn format_of(output: Seq<u8>) -> Seq<u8> {
    match path::extension(output) {
        Some(ext) if vstd::utf8::valid_utf8(ext) => ext,
        _ => path::bytes_of("png"@),
    }
}

/// The stem that a staged file has from `output`.
pub open spec fn staged_stem(output: Seq<u8>) -> Seq<u8> {
    match path::file_stem(output) {
        Some(stem) if vstd::utf8::valid_utf8(stem) => stem,
        _ => path::bytes_of("preview"@),
    }
}

/// The name that mmdc writes `output` under before it is moved into place.
pub open spec fn staged_name(output: Seq<u8>, pid: u32, serial: u64) -> Seq<u8> {
    seq![path::DOT] + staged_stem(output) + path::bytes_of(".tmp."@) + path::bytes_of(
        numeral::decimal(pid as nat),
    ) + seq![path::DOT] + path::bytes_of(numeral::decimal(serial as nat)) + seq![path::DOT]
        + format_of(output)
}

fn find_format(output: &[u8]) -> (r: Vec<u8>)
    ensures
        r@ == format_of(output@),
{
    match path::get_extension(output) {
        Some(ext) => if path::is_utf8(&ext) {
            ext
        } else {
            path::copy("png".as_bytes())
        },
        None => path::copy("png".as_bytes()),
    }
}

/// Where mmdc writes `output` before it is moved into place: inside the destination directory, so
/// the rename stays on one filesystem, which is what makes it atomic. The pid + counter suffix
/// keeps the staged path unique, so overlapping renders of the same output never collide.
pub fn staged_path(dir: &[u8], output: &[u8], pid: u32, serial: u64) -> (r: Vec<u8>)
    ensures
        r@ == path::join(dir@, staged_name(output@, pid, serial)),
{
    let mut name: Vec<u8> = Vec::new();
    name.push(path::DOT);
    match path::get_file_stem(output) {
        Some(stem) => if path::is_utf8(&stem) {
            path::push_bytes(&mut name, &stem);
        } else {
            path::push_bytes(&mut name, "preview".as_bytes());
        },
        None => {
            path::push_bytes(&mut name, "preview".as_bytes());
        },
    }
    assert(name@ =~= seq![path::DOT] + staged_stem(output@));
    path::push_bytes(&mut name, ".tmp.".as_bytes());
    let id = numeral::to_decimal(pid as u64);
    path::push_bytes(&mut name, id.as_str().as_bytes());
    name.push(path::DOT);
    let count = numeral::to_decimal(serial);
    path::push_bytes(&mut name, count.as_str().as_bytes());
    name.push(path::DOT);
    let format = find_format(output);
    path::push_bytes(&mut name, &format);
    assert(name@ =~= staged_name(output@, pid, serial));
    path::join_path(dir, &name)
}

/// The arguments of mmdc.
pub open spec fn arguments(input: Seq<u8>, staged: Seq<u8>, format: Seq<u8>) -> Seq<Seq<u8>> {
    let common = seq![
        path::bytes_of("-i"@),
        input,
        path::bytes_of("-o"@),
        staged,
        path::bytes_of("-b"@),
        path::bytes_of("white"@),
    ];
    if format == path::bytes_of("png"@) {
        common + seq![path::bytes_of("-s"@), path::bytes_of(PNG_SCALE@)]
    } else {
        common
    }
}

/// Byte strings as sequences.
pub open spec fn rows(v: Seq<Vec<u8>>) -> Seq<Seq<u8>> {
    v.map_values(|r: Vec<u8>| r@)
}

/// The arguments of mmdc.
pub fn mmdc_arguments(input: &[u8], staged: &[u8], format: &[u8]) -> (r: Vec<Vec<u8>>)
    ensures
        rows(r@) == arguments(input@, staged@, format@),
        r@.len() >= 6,
        r@[1]@ == input@,
        r@[3]@ == staged@,
{
    let mut r: Vec<Vec<u8>> = Vec::new();
    r.push(path::copy("-i".as_bytes()));
    r.push(path::copy(input));
    r.push(path::copy("-o".as_bytes()));
    r.push(path::copy(staged));
    r.push(path::copy("-b".as_bytes()));
    r.push(path::copy("white".as_bytes()));
    if path::same_bytes(format, "png".as_bytes()) {
        r.push(path::copy("-s".as_bytes()));
        r.push(path::copy(PNG_SCALE.as_bytes()));
    }
    assert(rows(r@) =~= arguments(input@, staged@, format@));
    r
}

// ---------------------------------------------------------------------------------------------
// The course of a render
// ---------------------------------------------------------------------------------------------

/// What a render does next.
pub enum Stage {
    /// Find mmdc.
    FindMmdc,
    /// Create `dir` and what it lies in.
    CreateDir { mmdc: Vec<u8>, dir: Vec<u8> },
    /// Create a directory for the input.
    CreateScratch { mmdc: Vec<u8>, dir: Vec<u8> },
    /// Write the job's source to `input`.
    WriteInput { mmdc: Vec<u8>, dir: Vec<u8>, input: Vec<u8> },
    /// Run `mmdc` with `args`, for no longer than `RENDER_TIMEOUT_SECS`. It writes to `staged`.
    Run { mmdc: Vec<u8>, args: Vec<Vec<u8>>, staged: Vec<u8> },
    /// Kill and reap mmdc.
    Kill { staged: Vec<u8> },
    /// Remove `staged`.
    Discard { staged: Vec<u8>, error: RenderError },
    /// Move `staged` to the job's output.
    Move { staged: Vec<u8> },
    /// Nothing: this is how the render went.
    Done { result: Result<(), RenderError> },
}

/// How what a stage says went.
pub enum RenderEvent {
    /// mmdc was found there, or nowhere.
    Located { mmdc: Option<Vec<u8>> },
    /// It was done.
    Succeeded,
    /// It could not be done.
    Failed,
    /// A directory for the input was created there.
    Scratch { dir: Vec<u8> },
    /// The input was written, by the process `pid`, which has staged `serial` files so far.
    Written { pid: u32, serial: u64 },
    /// mmdc exited.
    Exited { success: bool, stderr: String },
    /// mmdc could not be waited for.
    WaitFailed,
    /// mmdc ran longer than it may.
    TimedOut,
}

/// One render.
pub struct RenderJob {
    /// What mmdc is given.
    pub source: String,
    /// Where its image goes.
    pub output: Vec<u8>,
    /// What is next.
    pub stage: Stage,
}

/// Whether `next` is what comes after `stage`, in a job with the given output, once `event` said
/// how it went. An event that says nothing about a stage leaves it as it is.
pub open spec fn follows(output: Seq<u8>, stage: Stage, event: RenderEvent, next: Stage) -> bool {
    match (stage, event) {
        (Stage::FindMmdc, RenderEvent::Located { mmdc }) => match (mmdc, path::parent(output)) {
            (None, _) => next == Stage::Done { result: Err(RenderError::MmdcNotFound) },
            (Some(_), None) => next == Stage::Done { result: Err(RenderError::NoParent) },
            (Some(mmdc), Some(dir)) => next matches Stage::CreateDir { mmdc: m, dir: d } && m
                == mmdc && d@ == dir,
        },
        (Stage::CreateDir { mmdc, dir }, RenderEvent::Succeeded) => next == Stage::CreateScratch {
            mmdc,
            dir,
        },
        (Stage::CreateDir { dir, .. }, RenderEvent::Failed) => next == Stage::Done {
            result: Err(RenderError::CreatingDir { dir }),
        },
        (Stage::CreateScratch { mmdc, dir }, RenderEvent::Scratch { dir: scratch }) => next matches
            Stage::WriteInput { mmdc: m, dir: d, input } && m == mmdc && d == dir && input@
            == path::join(scratch@, path::bytes_of("diagram.mmd"@)),
        (Stage::CreateScratch { .. }, RenderEvent::Failed) => next == Stage::Done {
            result: Err(RenderError::CreatingScratch),
        },
        (Stage::WriteInput { mmdc, dir, input }, RenderEvent::Written { pid, serial }) =>
            next matches Stage::Run { mmdc: m, args, staged } && m == mmdc && staged@ == path::join(
            dir@,
            staged_name(output, pid, serial),
        ) && rows(args@) == arguments(input@, staged@, format_of(output)),
        (Stage::WriteInput { .. }, RenderEvent::Failed) => next == Stage::Done {
            result: Err(RenderError::WritingSource),
        },
        (Stage::Run { .. }, RenderEvent::Failed) => next == Stage::Done {
            result: Err(RenderError::RunningMmdc),
        },
        (Stage::Run { .. }, RenderEvent::WaitFailed) => next == Stage::Done {
            result: Err(RenderError::WaitingForMmdc),
        },
        (Stage::Run { staged, .. }, RenderEvent::TimedOut) => next == Stage::Kill { staged },
        (Stage::Run { staged, .. }, RenderEvent::Exited { success, stderr }) => if success {
            next == Stage::Move { staged }
        } else {
            next matches Stage::Discard { staged: s, error } && s == staged && (
            error matches RenderError::Failed { summary } && summary@ == diagram::summary(stderr@))
        },
        (Stage::Kill { staged }, RenderEvent::Succeeded) => next == Stage::Discard {
            staged,
            error: RenderError::TimedOut,
        },
        (Stage::Kill { staged }, RenderEvent::Failed) => next == Stage::Discard {
            staged,
            error: RenderError::TimedOut,
        },
        (Stage::Discard { error, .. }, RenderEvent::Succeeded) => next == Stage::Done {
            result: Err(error),
        },
        (Stage::Discard { error, .. }, RenderEvent::Failed) => next == Stage::Done {
            result: Err(error),
        },
        (Stage::Move { .. }, RenderEvent::Succeeded) => next == Stage::Done { result: Ok(()) },
        (Stage::Move { .. }, RenderEvent::Failed) => next matches Stage::Done {
            result: Err(RenderError::MovingIntoPlace { output: o }),
        } && o@ == output,
        _ => next == stage,
    }
}

/// Whether a render of `source` begins with `stage`.
pub open spec fn begins(source: Seq<char>, stage: Stage) -> bool {
    stage == if text::blank(source) {
        Stage::Done { result: Err(RenderError::EmptyDiagram) }
    } else {
        Stage::FindMmdc
    }
}

/// Begins to render Mermaid source to `output`, whose extension selects the format (png or svg).
///
/// The file is replaced atomically. Zed watches the preview file and repaints on change, so a
/// partially written file would otherwise flash a corrupt image.
pub fn render(source: &str, output: &[u8]) -> (r: RenderJob)
    ensures
        r.source@ == diagram::stripped(source@),
        r.output@ == output@,
        begins(source@, r.stage),
{
    let chars = text::chars_of(source);
    let stage = if text::is_blank(&chars) {
        Stage::Done { result: Err(RenderError::EmptyDiagram) }
    } else {
        Stage::FindMmdc
    };
    RenderJob {
        source: diagram::strip_empty_comments(source),
        output: path::copy(output),
        stage: stage,
    }
}

impl RenderJob {
    /// The job after `event`.
    pub fn advance(self, event: RenderEvent) -> (r: RenderJob)
        ensures
            r.source == self.source,
            r.output == self.output,
            follows(self.output@, self.stage, event, r.stage),
            self.stage is Run && event is Exited && event->success ==> r.stage == (Stage::Move {
                staged: self.stage->Run_staged,
            }),
    {
        let RenderJob { source, output, stage } = self;
        let next = next_stage(&output, stage, event);
        RenderJob { source: source, output: output, stage: next }
    }
}

fn next_stage(output: &Vec<u8>, stage: Stage, event: RenderEvent) -> (next: Stage)
    ensures
        follows(output@, stage, event, next),
{
    match (stage, event) {
        (Stage::FindMmdc, RenderEvent::Located { mmdc }) => match mmdc {
            None => Stage::Done { result: Err(RenderError::MmdcNotFound) },
            Some(mmdc) => match path::get_parent(output) {
                None => Stage::Done { result: Err(RenderError::NoParent) },
                Some(dir) => Stage::CreateDir { mmdc: mmdc, dir: dir },
            },
        },
        (Stage::CreateDir { mmdc, dir }, RenderEvent::Succeeded) => Stage::CreateScratch {
            mmdc: mmdc,
            dir: dir,
        },
        (Stage::CreateDir { mmdc, dir }, RenderEvent::Failed) => Stage::Done {
            result: Err(RenderError::CreatingDir { dir: dir }),
        },
        (Stage::CreateScratch { mmdc, dir }, RenderEvent::Scratch { dir: scratch }) => {
            let input = path::join_path(&scratch, "diagram.mmd".as_bytes());
            Stage::WriteInput { mmdc: mmdc, dir: dir, input: input }
        },
        (Stage::CreateScratch { mmdc, dir }, RenderEvent::Failed) => Stage::Done {
            result: Err(RenderError::CreatingScratch),
        },
        (Stage::WriteInput { mmdc, dir, input }, RenderEvent::Written { pid, serial }) => {
            let staged = staged_path(&dir, output, pid, serial);
            let format = find_format(output);
            let args = mmdc_arguments(&input, &staged, &format);
            Stage::Run { mmdc: mmdc, args: args, staged: staged }
        },
        (Stage::WriteInput { mmdc, dir, input }, RenderEvent::Failed) => Stage::Done {
            result: Err(RenderError::WritingSource),
        },
        (Stage::Run { mmdc, args, staged }, RenderEvent::Failed) => Stage::Done {
            result: Err(RenderError::RunningMmdc),
        },
        (Stage::Run { mmdc, args, staged }, RenderEvent::WaitFailed) => Stage::Done {
            result: Err(RenderError::WaitingForMmdc),
        },
        // A hung Chromium never exits on its own; kill and reap it so the render thread is freed
        // rather than blocked forever.
        (Stage::Run { mmdc, args, staged }, RenderEvent::TimedOut) => Stage::Kill {
            staged: staged,
        },
        (Stage::Run { mmdc, args, staged }, RenderEvent::Exited { success, stderr }) => {
            if success {
                Stage::Move { staged: staged }
            } else {
                let summary = diagram::error_summary(stderr.as_str());
                Stage::Discard { staged: staged, error: RenderError::Failed { summary: summary } }
            }
        },
        (Stage::Kill { staged }, RenderEvent::Succeeded) => Stage::Discard {
            staged: staged,
            error: RenderError::TimedOut,
        },
        (Stage::Kill { staged }, RenderEvent::Failed) => Stage::Discard {
            staged: staged,
            error: RenderError::TimedOut,
        },
        (Stage::Discard { staged, error }, RenderEvent::Succeeded) => Stage::Done {
            result: Err(error),
        },
        (Stage::Discard { staged, error }, RenderEvent::Failed) => Stage::Done {
            result: Err(error),
        },
        (Stage::Move { staged }, RenderEvent::Succeeded) => Stage::Done { result: Ok(()) },
        (Stage::Move { staged }, RenderEvent::Failed) => Stage::Done {
            result: Err(RenderError::MovingIntoPlace { output: path::copy(output) }),
        },
        (stage, event) => stage,
    }
}

// ---------------------------------------------------------------------------------------------
// What holds of staged files
// ---------------------------------------------------------------------------------------------

proof fn lemma_png_bytes()
    ensures
        path::bytes_of("png"@).len() > 0,
        !path::bytes_of("png"@).contains(path::SEP),
        !path::bytes_of("png"@).contains(path::DOT),
        vstd::utf8::valid_utf8(path::bytes_of("png"@)),
{
    reveal_strlit("png");
    vstd::utf8::is_ascii_chars_encode_utf8("png"@);
    vstd::utf8::encode_utf8_valid_utf8("png"@);
    assert(path::bytes_of("png"@) =~= seq![112u8, 110u8, 103u8]);
}

/// A format holds neither a separator nor a dot.
proof fn lemma_format(output: Seq<u8>)
    ensures
        !format_of(output).contains(path::SEP),
        !format_of(output).contains(path::DOT),
        vstd::utf8::valid_utf8(format_of(output)),
{
    lemma_png_bytes();
    if path::extension(output) is Some {
        path::extension_is_plain(output);
    }
}

proof fn lemma_staged_stem(output: Seq<u8>)
    ensures
        staged_stem(output).len() > 0,
        !staged_stem(output).contains(path::SEP),
        vstd::utf8::valid_utf8(staged_stem(output)),
{
    reveal_strlit("preview");
    vstd::utf8::is_ascii_chars_encode_utf8("preview"@);
    vstd::utf8::encode_utf8_valid_utf8("preview"@);
    if path::file_stem(output) is Some {
        path::file_stem_is_plain(output);
    }
}

proof fn lemma_decimal_bytes(n: nat)
    ensures
        path::bytes_of(numeral::decimal(n)).len() > 0,
        !path::bytes_of(numeral::decimal(n)).contains(path::SEP),
        !path::bytes_of(numeral::decimal(n)).contains(path::DOT),
        vstd::utf8::valid_utf8(path::bytes_of(numeral::decimal(n))),
{
    let s = numeral::decimal(n);
    numeral::numeral_is_digits(n, 10);
    vstd::utf8::is_ascii_chars_encode_utf8(s);
    vstd::utf8::encode_utf8_valid_utf8(s);
    let bytes = path::bytes_of(s);
    assert forall|i: int| 0 <= i < bytes.len() implies bytes[i] != path::SEP && bytes[i]
        != path::DOT by {
        assert('0' <= s[i] <= '9' || 'a' <= s[i] <= 'f');
    }
}

proof fn lemma_tmp_bytes()
    ensures
        path::bytes_of(".tmp."@) == seq![path::DOT, 116u8, 109u8, 112u8, path::DOT],
        vstd::utf8::valid_utf8(path::bytes_of(".tmp."@)),
{
    reveal_strlit(".tmp.");
    vstd::utf8::is_ascii_chars_encode_utf8(".tmp."@);
    vstd::utf8::encode_utf8_valid_utf8(".tmp."@);
    assert(path::bytes_of(".tmp."@) =~= seq![path::DOT, 116u8, 109u8, 112u8, path::DOT]);
}

/// What a staged name has before its format.
spec fn staged_head(output: Seq<u8>, pid: u32, serial: u64) -> Seq<u8> {
    seq![path::DOT] + staged_stem(output) + path::bytes_of(".tmp."@) + path::bytes_of(
        numeral::decimal(pid as nat),
    ) + seq![path::DOT] + path::bytes_of(numeral::decimal(serial as nat))
}

proof fn lemma_staged_head(output: Seq<u8>, pid: u32, serial: u64)
    ensures
        staged_name(output, pid, serial) == staged_head(output, pid, serial) + seq![path::DOT]
            + format_of(output),
        staged_head(output, pid, serial).len() > staged_stem(output).len() + 5,
        !staged_head(output, pid, serial).contains(path::SEP),
{
    let head = staged_head(output, pid, serial);
    let stem = staged_stem(output);
    let tmp = path::bytes_of(".tmp."@);
    let id = path::bytes_of(numeral::decimal(pid as nat));
    let count = path::bytes_of(numeral::decimal(serial as nat));
    lemma_tmp_bytes();
    lemma_staged_stem(output);
    lemma_decimal_bytes(pid as nat);
    lemma_decimal_bytes(serial as nat);
    if head.contains(path::SEP) {
        let i = choose|i: int| 0 <= i < head.len() && head[i] == path::SEP;
        let a = 1 + stem.len();
        let b = a + tmp.len();
        let c = b + id.len();
        if 1 <= i < a {
            assert(stem[i - 1] == path::SEP);
        } else if a <= i < b {
            assert(tmp[i - a] == path::SEP);
        } else if b <= i < c {
            assert(id[i - b] == path::SEP);
        } else if i > c {
            assert(count[i - (c + 1)] == path::SEP);
        }
    }
}

/// A staged name stands for a file, and has the format of the output for its extension.
pub proof fn staged_name_is_plain(output: Seq<u8>, pid: u32, serial: u64)
    ensures
        path::plain_name(staged_name(output, pid, serial)),
        path::extension_of(staged_name(output, pid, serial)) == Some(format_of(output)),
{
    let name = staged_name(output, pid, serial);
    let head = staged_head(output, pid, serial);
    let format = format_of(output);
    lemma_staged_head(output, pid, serial);
    lemma_format(output);
    let n = head.len() as int;
    assert forall|i: int| n < i < name.len() implies name[i] == format[i - (n + 1)] by {}
    if name.contains(path::SEP) {
        let i = choose|i: int| 0 <= i < name.len() && name[i] == path::SEP;
        if i < n {
            assert(head[i] == path::SEP);
        } else if i > n {
            assert(format[i - (n + 1)] == path::SEP);
        }
    }
    assert forall|i: int| n < i < name.len() implies name[i] != path::DOT by {
        assert(format.contains(format[i - (n + 1)]));
    }
    path::last_dot_is(name, n);
    assert(name.skip(n + 1) =~= format);
}

/// A render is staged in the directory that its output is in, so that moving it into place is a
/// rename inside one directory, and never under the output's own path.
pub proof fn staged_file_is_beside_output(output: Seq<u8>, pid: u32, serial: u64)
    requires
        path::parent(output) is Some,
    ensures
        path::parent(path::join(path::parent(output)->0, staged_name(output, pid, serial)))
            == path::parent(output),
        path::join(path::parent(output)->0, staged_name(output, pid, serial)) != output,
{
    let dir = path::parent(output)->0;
    let name = staged_name(output, pid, serial);
    staged_name_is_plain(output, pid, serial);
    path::joined_path_is_in_dir(dir, name);
    path::parent_is_tidy(output);
    if path::join(dir, name) == output {
        assert(path::file_name(output) == Some(name));
        lemma_staged_head(output, pid, serial);
        lemma_staged_stem(output);
        let head = staged_head(output, pid, serial);
        // The output would have the staged name, and so the staged name's stem, which is longer
        // than the output's own.
        assert(path::extension_of(name) == Some(format_of(output)));
        path::last_dot_of_extension(name);
        assert(path::stem_of(name) =~= head);
        lemma_staged_head_is_utf8(output, pid, serial);
        assert(path::file_stem(output) == Some(head));
        assert(staged_stem(output) == head);
    }
}

/// A file whose stem begins the output's name is never staged: what is staged has a longer one.
pub proof fn staged_file_is_no_file_of_the_outputs_stem(
    output: Seq<u8>,
    pid: u32,
    serial: u64,
    file: Seq<u8>,
)
    requires
        path::parent(output) is Some,
        path::file_stem(file) is Some,
        path::file_name(output) is Some,
        (path::file_stem(file)->0).is_prefix_of(path::file_name(output)->0),
        vstd::utf8::valid_utf8(path::file_stem(file)->0) ==> vstd::utf8::valid_utf8(
            path::file_name(output)->0,
        ),
    ensures
        path::join(path::parent(output)->0, staged_name(output, pid, serial)) != file,
{
    if path::join(path::parent(output)->0, staged_name(output, pid, serial)) == file {
        staged_stem_is_text(output, pid, serial);
        let stem = path::file_stem(file)->0;
        let own = path::file_name(output)->0;
        // The output's own stem goes beyond what a staged name has from it.
        let k = staged_stem(output).len() + 1int;
        assert(own[k] == stem[k]);
        path::last_dot_is_last(own);
        let d = path::last_dot(own);
        assert(d >= k);
        vstd::utf8::is_char_boundary_iff_not_is_continuation_byte(own, d);
        vstd::utf8::valid_utf8_split(own, d);
        assert(own.take(d) =~= own.subrange(0, d));
        assert(path::file_stem(output) == Some(own.take(d)));
    }
}

/// The stem of what is staged is text, and has a dot behind what it has from the output.
pub proof fn staged_stem_is_text(output: Seq<u8>, pid: u32, serial: u64)
    requires
        path::parent(output) is Some,
    ensures
        path::file_stem(
            path::join(path::parent(output)->0, staged_name(output, pid, serial)),
        ) matches Some(stem) && vstd::utf8::valid_utf8(stem) && stem.len() > staged_stem(
            output,
        ).len() + 5 && stem[staged_stem(output).len() + 1int] == path::DOT,
{
    let name = staged_name(output, pid, serial);
    let head = staged_head(output, pid, serial);
    staged_name_is_plain(output, pid, serial);
    path::joined_path_is_in_dir(path::parent(output)->0, name);
    lemma_staged_head(output, pid, serial);
    lemma_staged_head_is_utf8(output, pid, serial);
    lemma_format(output);
    lemma_tmp_bytes();
    path::last_dot_is(name, head.len() as int);
    assert(name.take(head.len() as int) =~= head);
}

proof fn lemma_staged_head_is_utf8(output: Seq<u8>, pid: u32, serial: u64)
    ensures
        vstd::utf8::valid_utf8(staged_head(output, pid, serial)),
{
    let dot = seq![path::DOT];
    let stem = staged_stem(output);
    let tmp = path::bytes_of(".tmp."@);
    let id = path::bytes_of(numeral::decimal(pid as nat));
    let count = path::bytes_of(numeral::decimal(serial as nat));
    lemma_tmp_bytes();
    lemma_staged_stem(output);
    lemma_decimal_bytes(pid as nat);
    lemma_decimal_bytes(serial as nat);
    path::dot_is_utf8();
    vstd::utf8::valid_utf8_concat(dot, stem);
    vstd::utf8::valid_utf8_concat(dot + stem, tmp);
    vstd::utf8::valid_utf8_concat(dot + stem + tmp, id);
    vstd::utf8::valid_utf8_concat(dot + stem + tmp + id, dot);
    vstd::utf8::valid_utf8_concat(dot + stem + tmp + id + dot, count);
}

/// Two renders, by one process or by several, never stage the same file, whatever their outputs.
pub proof fn staged_files_never_collide(
    dir1: Seq<u8>,
    output1: Seq<u8>,
    pid1: u32,
    serial1: u64,
    dir2: Seq<u8>,
    output2: Seq<u8>,
    pid2: u32,
    serial2: u64,
)
    requires
        pid1 != pid2 || serial1 != serial2,
    ensures
        path::join(dir1, staged_name(output1, pid1, serial1)) != path::join(
            dir2,
            staged_name(output2, pid2, serial2),
        ),
{
    let a = staged_name(output1, pid1, serial1);
    let b = staged_name(output2, pid2, serial2);
    staged_name_is_plain(output1, pid1, serial1);
    staged_name_is_plain(output2, pid2, serial2);
    path::joined_path_is_in_dir(dir1, a);
    path::joined_path_is_in_dir(dir2, b);
    if path::join(dir1, a) == path::join(dir2, b) {
        lemma_staged_name_has_ids(output1, pid1, serial1, output2, pid2, serial2);
    }
}

proof fn lemma_staged_name_has_ids(
    output1: Seq<u8>,
    pid1: u32,
    serial1: u64,
    output2: Seq<u8>,
    pid2: u32,
    serial2: u64,
)
    requires
        staged_name(output1, pid1, serial1) == staged_name(output2, pid2, serial2),
    ensures
        pid1 == pid2,
        serial1 == serial2,
{
    let dot = seq![path::DOT];
    let id1 = path::bytes_of(numeral::decimal(pid1 as nat));
    let id2 = path::bytes_of(numeral::decimal(pid2 as nat));
    let count1 = path::bytes_of(numeral::decimal(serial1 as nat));
    let count2 = path::bytes_of(numeral::decimal(serial2 as nat));
    let start1 = lemma_staged_parts(output1, pid1, serial1);
    let start2 = lemma_staged_parts(output2, pid2, serial2);
    lemma_behind_last_dot(
        start1 + dot + id1 + dot + count1,
        format_of(output1),
        start2 + dot + id2 + dot + count2,
        format_of(output2),
    );
    lemma_behind_last_dot(start1 + dot + id1, count1, start2 + dot + id2, count2);
    lemma_behind_last_dot(start1, id1, start2, id2);
    lemma_same_decimal(pid1 as nat, pid2 as nat);
    lemma_same_decimal(serial1 as nat, serial2 as nat);
}

proof fn lemma_same_decimal(m: nat, n: nat)
    requires
        path::bytes_of(numeral::decimal(m)) == path::bytes_of(numeral::decimal(n)),
    ensures
        m == n,
{
    vstd::utf8::encode_utf8_decode_utf8(numeral::decimal(m));
    vstd::utf8::encode_utf8_decode_utf8(numeral::decimal(n));
    numeral::decimal_is_injective(m, n);
}

proof fn lemma_staged_parts(output: Seq<u8>, pid: u32, serial: u64) -> (start: Seq<u8>)
    ensures
        ({
            let dot = seq![path::DOT];
            let id = path::bytes_of(numeral::decimal(pid as nat));
            let count = path::bytes_of(numeral::decimal(serial as nat));
            &&& staged_name(output, pid, serial) == start + dot + id + dot + count + dot
                + format_of(output)
            &&& !id.contains(path::DOT)
            &&& !count.contains(path::DOT)
            &&& !format_of(output).contains(path::DOT)
        }),
{
    let dot = seq![path::DOT];
    let id = path::bytes_of(numeral::decimal(pid as nat));
    let count = path::bytes_of(numeral::decimal(serial as nat));
    lemma_decimal_bytes(pid as nat);
    lemma_decimal_bytes(serial as nat);
    lemma_format(output);
    lemma_tmp_bytes();
    let start = dot + staged_stem(output) + seq![path::DOT, 116u8, 109u8, 112u8];
    assert(staged_name(output, pid, serial) =~= start + dot + id + dot + count + dot + format_of(
        output,
    ));
    start
}

#[verifier::spinoff_prover]
proof fn lemma_behind_last_dot(a: Seq<u8>, x: Seq<u8>, b: Seq<u8>, y: Seq<u8>)
    requires
        !x.contains(path::DOT),
        !y.contains(path::DOT),
        a + seq![path::DOT] + x == b + seq![path::DOT] + y,
    ensures
        a == b,
        x == y,
{
    let s = a + seq![path::DOT] + x;
    lemma_is_last_dot(a, x);
    lemma_is_last_dot(b, y);
    let n = path::last_dot(s);
    assert(a =~= s.take(n));
    assert(b =~= s.take(n));
    assert(x =~= s.skip(n + 1));
    assert(y =~= s.skip(n + 1));
}

#[verifier::spinoff_prover]
proof fn lemma_is_last_dot(a: Seq<u8>, x: Seq<u8>)
    requires
        !x.contains(path::DOT),
    ensures
        path::last_dot(a + seq![path::DOT] + x) == a.len(),
        (a + seq![path::DOT] + x).take(a.len() as int) == a,
        (a + seq![path::DOT] + x).skip(a.len() + 1int) == x,
{
    let head = a + seq![path::DOT];
    let s = head + x;
    let n = a.len() as int;
    assert(head.len() == n + 1);
    assert(s[n] == head[n]);
    assert forall|i: int| n < i < s.len() implies s[i] != path::DOT by {
        assert(s[i] == x[i - (n + 1)]);
        assert(x.contains(x[i - (n + 1)]));
    }
    path::last_dot_is(s, n);
    assert(s.take(n) =~= a);
    assert(s.skip(n + 1) =~= x);
}

// ---------------------------------------------------------------------------------------------
// What holds of any course of a render
// ---------------------------------------------------------------------------------------------

/// Stages that a render of `source` to `output` can go through, and the events between them.
pub open spec fn course(
    source: Seq<char>,
    output: Seq<u8>,
    stages: Seq<Stage>,
    events: Seq<RenderEvent>,
) -> bool {
    &&& stages.len() == events.len() + 1
    &&& begins(source, stages[0])
    &&& forall|i: int|
        0 <= i < events.len() ==> follows(output, stages[i], #[trigger] events[i], stages[i + 1])
}

/// Whether mmdc, running at `stage`, exited with success.
pub open spec fn rendered(stage: Stage, event: RenderEvent) -> bool {
    stage is Run && (event matches RenderEvent::Exited { success, .. } && success)
}

/// Whether mmdc, running at `stage`, failed or ran too long.
pub open spec fn gave_up(stage: Stage, event: RenderEvent) -> bool {
    stage is Run && (event is TimedOut || (event matches RenderEvent::Exited { success, .. }
        && !success))
}

/// A stage at which the output is replaced, or was.
pub open spec fn replaces_output(stage: Stage) -> bool {
    stage is Move || (stage matches Stage::Done { result } && result is Ok)
}

/// The output is replaced, and a render succeeds, only after mmdc exited with success.
pub proof fn output_is_replaced_only_after_success(
    source: Seq<char>,
    output: Seq<u8>,
    stages: Seq<Stage>,
    events: Seq<RenderEvent>,
    i: int,
)
    requires
        course(source, output, stages, events),
        0 <= i < stages.len(),
        replaces_output(stages[i]),
    ensures
        exists|j: int| 0 <= j < i && rendered(stages[j], #[trigger] events[j]),
    decreases i,
{
    if i > 0 {
        assert(follows(output, stages[i - 1], events[i - 1], stages[i - 1 + 1]));
        if replaces_output(stages[i - 1]) {
            output_is_replaced_only_after_success(source, output, stages, events, i - 1);
        } else {
            assert(rendered(stages[i - 1], events[i - 1]));
        }
    }
}

/// Once mmdc failed or ran too long, the output is not replaced: a preview keeps showing the last
/// render that worked.
pub proof fn failed_render_keeps_output(
    source: Seq<char>,
    output: Seq<u8>,
    stages: Seq<Stage>,
    events: Seq<RenderEvent>,
    j: int,
    i: int,
)
    requires
        course(source, output, stages, events),
        0 <= j < i < stages.len(),
        gave_up(stages[j], events[j]),
    ensures
        stages[i] is Kill || stages[i] is Discard || (stages[i] matches Stage::Done { result }
            && result is Err),
        !replaces_output(stages[i]),
    decreases i,
{
    assert(follows(output, stages[i - 1], events[i - 1], stages[i - 1 + 1]));
    if j < i - 1 {
        failed_render_keeps_output(source, output, stages, events, j, i - 1);
    }
}

/// After mmdc failed or ran too long, a render does not end before it removed the staged file.
pub proof fn failed_render_discards_staged_file(
    source: Seq<char>,
    output: Seq<u8>,
    stages: Seq<Stage>,
    events: Seq<RenderEvent>,
    j: int,
    i: int,
)
    requires
        course(source, output, stages, events),
        0 <= j < i < stages.len(),
        gave_up(stages[j], events[j]),
    ensures
        stages[i] is Kill ==> stages[i]->Kill_staged == stages[j]->Run_staged,
        stages[i] is Discard ==> stages[i]->Discard_staged == stages[j]->Run_staged,
        stages[i] is Done ==> exists|k: int|
            j < k < i && #[trigger] stages[k] is Discard && stages[k]->Discard_staged
                == stages[j]->Run_staged,
    decreases i,
{
    assert(follows(output, stages[i - 1], events[i - 1], stages[i - 1 + 1]));
    if j < i - 1 {
        failed_render_keeps_output(source, output, stages, events, j, i - 1);
        failed_render_discards_staged_file(source, output, stages, events, j, i - 1);
    }
}

/// How many stages can come after `stage`.
pub open spec fn stages_left(stage: Stage) -> nat {
    match stage {
        Stage::FindMmdc => 7,
        Stage::CreateDir { .. } => 6,
        Stage::CreateScratch { .. } => 5,
        Stage::WriteInput { .. } => 4,
        Stage::Run { .. } => 3,
        Stage::Kill { .. } => 2,
        Stage::Discard { .. } => 1,
        Stage::Move { .. } => 1,
        Stage::Done { .. } => 0,
    }
}

/// A render goes forward only, and so comes to an end.
pub proof fn render_goes_forward(output: Seq<u8>, stage: Stage, event: RenderEvent, next: Stage)
    requires
        follows(output, stage, event, next),
    ensures
        next == stage || stages_left(next) < stages_left(stage),
{
}

/// The paths that a render creates, writes, removes or moves at `stage`.
pub open spec fn touched(output: Seq<u8>, stage: Stage) -> Set<Seq<u8>> {
    match stage {
        Stage::CreateDir { dir, .. } => set![dir@],
        Stage::WriteInput { input, .. } => set![input@],
        Stage::Run { staged, .. } => set![staged@],
        Stage::Discard { staged, .. } => set![staged@],
        Stage::Move { staged } => set![staged@, output],
        _ => set![],
    }
}

/// A path where a render of `output` stages a file.
pub open spec fn staged_for(output: Seq<u8>, p: Seq<u8>) -> bool {
    path::parent(output) is Some && exists|pid: u32, serial: u64|
        p == path::join(path::parent(output)->0, #[trigger] staged_name(output, pid, serial))
}

/// The input in a scratch directory that one of `events` reports.
pub open spec fn scratch_input(events: Seq<RenderEvent>, p: Seq<u8>) -> bool {
    exists|k: int|
        0 <= k < events.len() && (#[trigger] events[k] matches RenderEvent::Scratch { dir } && p
            == path::join(dir@, path::bytes_of("diagram.mmd"@)))
}

/// What a stage of a render of `output` holds.
spec fn holds_its_paths(output: Seq<u8>, events: Seq<RenderEvent>, stage: Stage) -> bool {
    match stage {
        Stage::CreateDir { dir, .. } => path::parent(output) == Some(dir@),
        Stage::CreateScratch { dir, .. } => path::parent(output) == Some(dir@),
        Stage::WriteInput { dir, input, .. } => path::parent(output) == Some(dir@) && scratch_input(
            events,
            input@,
        ),
        Stage::Run { staged, .. } => staged_for(output, staged@),
        Stage::Kill { staged } => staged_for(output, staged@),
        Stage::Discard { staged, .. } => staged_for(output, staged@),
        Stage::Move { staged } => staged_for(output, staged@),
        _ => true,
    }
}

proof fn lemma_holds_its_paths(
    source: Seq<char>,
    output: Seq<u8>,
    stages: Seq<Stage>,
    events: Seq<RenderEvent>,
    i: int,
)
    requires
        course(source, output, stages, events),
        0 <= i < stages.len(),
    ensures
        holds_its_paths(output, events, stages[i]),
    decreases i,
{
    if i > 0 {
        lemma_holds_its_paths(source, output, stages, events, i - 1);
        let s = stages[i - 1];
        let e = events[i - 1];
        assert(follows(output, s, e, stages[i - 1 + 1]));
        if s is WriteInput && e is Written {
            let pid = e->pid;
            let serial = e->serial;
            assert(stages[i]->Run_staged@ == path::join(
                path::parent(output)->0,
                staged_name(output, pid, serial),
            ));
        }
    }
}

/// A render touches nothing but its output, the directory that holds it, files it stages there,
/// and its input in a scratch directory.
pub proof fn render_touches_only_its_own(
    source: Seq<char>,
    output: Seq<u8>,
    stages: Seq<Stage>,
    events: Seq<RenderEvent>,
    i: int,
    p: Seq<u8>,
)
    requires
        course(source, output, stages, events),
        0 <= i < stages.len(),
        touched(output, stages[i]).contains(p),
    ensures
        scratch_input(events, p) || (path::parent(output) is Some && (p == output || path::parent(
            output,
        ) == Some(p) || staged_for(output, p))),
{
    lemma_holds_its_paths(source, output, stages, events, i);
}

/// The file that a render has staged, or is staging, at `stage`.
pub open spec fn staged_at(stage: Stage) -> Option<Seq<u8>> {
    match stage {
        Stage::Run { staged, .. } => Some(staged@),
        Stage::Kill { staged } => Some(staged@),
        Stage::Discard { staged, .. } => Some(staged@),
        Stage::Move { staged } => Some(staged@),
        _ => None,
    }
}

/// Whether a render, of which `events` report, is run by the process `pid` and has the given
/// serial number.
pub open spec fn has_serial(events: Seq<RenderEvent>, pid: u32, serial: u64) -> bool {
    forall|k: int|
        0 <= k < events.len() && #[trigger] events[k] is Written ==> events[k]->pid == pid
            && events[k]->serial == serial
}

proof fn lemma_staged_by_serial(
    source: Seq<char>,
    output: Seq<u8>,
    stages: Seq<Stage>,
    events: Seq<RenderEvent>,
    pid: u32,
    serial: u64,
    i: int,
)
    requires
        course(source, output, stages, events),
        has_serial(events, pid, serial),
        0 <= i < stages.len(),
    ensures
        staged_at(stages[i]) is Some ==> path::parent(output) is Some && staged_at(stages[i])
            == Some(path::join(path::parent(output)->0, staged_name(output, pid, serial))),
    decreases i,
{
    if i > 0 {
        lemma_staged_by_serial(source, output, stages, events, pid, serial, i - 1);
        lemma_holds_its_paths(source, output, stages, events, i - 1);
        assert(follows(output, stages[i - 1], events[i - 1], stages[i - 1 + 1]));
        if stages[i - 1] is WriteInput && events[i - 1] is Written {
            assert(events[i - 1]->pid == pid);
        }
    }
}

/// Two renders of one process, possibly overlapping and possibly of the same output, whose serial
/// numbers were handed out one after the other, stage two files, each in the directory of its own
/// output and neither under its output's path. The numbers begin anew only after all were used.
pub proof fn renders_of_one_process_are_apart(
    source1: Seq<char>,
    output1: Seq<u8>,
    stages1: Seq<Stage>,
    events1: Seq<RenderEvent>,
    n1: nat,
    i1: int,
    source2: Seq<char>,
    output2: Seq<u8>,
    stages2: Seq<Stage>,
    events2: Seq<RenderEvent>,
    n2: nat,
    i2: int,
    pid: u32,
)
    requires
        n1 < n2 < n1 + 0x1_0000_0000_0000_0000,
        course(source1, output1, stages1, events1),
        course(source2, output2, stages2, events2),
        has_serial(events1, pid, serial::serial(n1)),
        has_serial(events2, pid, serial::serial(n2)),
        0 <= i1 < stages1.len(),
        0 <= i2 < stages2.len(),
        staged_at(stages1[i1]) is Some,
        staged_at(stages2[i2]) is Some,
    ensures
        ({
            let p1 = staged_at(stages1[i1])->0;
            let p2 = staged_at(stages2[i2])->0;
            &&& p1 != p2
            &&& path::parent(p1) == path::parent(output1)
            &&& path::parent(p2) == path::parent(output2)
            &&& p1 != output1
            &&& p2 != output2
        }),
{
    let s1 = serial::serial(n1);
    let s2 = serial::serial(n2);
    serial::serials_are_new(n1, n2);
    lemma_staged_by_serial(source1, output1, stages1, events1, pid, s1, i1);
    lemma_staged_by_serial(source2, output2, stages2, events2, pid, s2, i2);
    let dir1 = path::parent(output1)->0;
    let dir2 = path::parent(output2)->0;
    staged_files_never_collide(dir1, output1, pid, s1, dir2, output2, pid, s2);
    staged_file_is_beside_output(output1, pid, s1);
    staged_file_is_beside_output(output2, pid, s2);
}

// ---------------------------------------------------------------------------------------------
// What each step of a render comes to
// ---------------------------------------------------------------------------------------------

/// Whatever the format, mmdc is told to read exactly `input` and to write exactly `staged`, on a
/// white background, and only a PNG is scaled, by six.
pub proof fn mmdc_reads_input_and_writes_staged(input: Seq<u8>, staged: Seq<u8>, format: Seq<u8>)
    ensures
        ({
            let a = arguments(input, staged, format);
            &&& a[0] == vstd::utf8::encode_utf8("-i"@) && a[1] == input
            &&& a[2] == vstd::utf8::encode_utf8("-o"@) && a[3] == staged
            &&& a[4] == vstd::utf8::encode_utf8("-b"@) && a[5] == vstd::utf8::encode_utf8("white"@)
            &&& format != vstd::utf8::encode_utf8("png"@) ==> a.len() == 6
            &&& format == vstd::utf8::encode_utf8("png"@) ==> a.len() == 8 && a[6]
                == vstd::utf8::encode_utf8("-s"@) && a[7] == vstd::utf8::encode_utf8("6"@)
        }),
{
}

/// Rows of bytes are taken as they are, each whole and in its place.
pub proof fn rows_are_taken_whole(v: Seq<Vec<u8>>, i: int)
    requires
        0 <= i < v.len(),
    ensures
        rows(v).len() == v.len(),
        rows(v)[i] == v[i]@,
{
}

/// The format of an output is its extension, and the stem of what is staged is its stem, each where
/// the output has one that is text.
pub proof fn format_and_stem_are_those_of_the_output(output: Seq<u8>)
    ensures
        path::extension(output) is Some && vstd::utf8::valid_utf8(path::extension(output)->0)
            ==> format_of(output) == path::extension(output)->0,
        !(path::extension(output) is Some && vstd::utf8::valid_utf8(path::extension(output)->0))
            ==> format_of(output) == vstd::utf8::encode_utf8("png"@),
        path::file_stem(output) is Some && vstd::utf8::valid_utf8(path::file_stem(output)->0)
            ==> staged_stem(output) == path::file_stem(output)->0,
        !(path::file_stem(output) is Some && vstd::utf8::valid_utf8(path::file_stem(output)->0))
            ==> staged_stem(output) == vstd::utf8::encode_utf8("preview"@),
{
}

/// What is staged is a hidden file that has the output's format for its extension, by which mmdc
/// tells what to write, and before it the numbers of the process and of the render.
pub proof fn staged_name_has_format_and_numbers(output: Seq<u8>, pid: u32, serial: u64)
    ensures
        path::extension_of(staged_name(output, pid, serial)) == Some(format_of(output)),
        staged_name(output, pid, serial) == seq![46u8] + staged_stem(output)
            + vstd::utf8::encode_utf8(".tmp."@) + vstd::utf8::encode_utf8(
            numeral::decimal(pid as nat),
        ) + seq![46u8] + vstd::utf8::encode_utf8(numeral::decimal(serial as nat)) + seq![46u8]
            + format_of(output),
{
    staged_name_is_plain(output, pid, serial);
}

/// A source with a character that is no white space is rendered, and any other is refused.
pub proof fn only_blank_sources_are_refused(source: Seq<char>, stage: Stage)
    requires
        begins(source, stage),
    ensures
        (exists|i: int| 0 <= i < source.len() && !text::white(#[trigger] source[i])) ==> stage
            is FindMmdc,
        (forall|i: int| 0 <= i < source.len() ==> text::white(#[trigger] source[i])) ==> (
        stage matches Stage::Done { result: Err(error) } && error is EmptyDiagram),
{
    text::one_other_character_makes_a_text_not_blank(source);
}

/// Once mmdc exited with success, whatever it printed, the file that it was told to write is moved
/// into place.
pub proof fn successful_run_is_moved_into_place(
    output: Seq<u8>,
    stage: Stage,
    event: RenderEvent,
    next: Stage,
)
    requires
        follows(output, stage, event, next),
        stage is Run,
        event is Exited,
        event->success,
    ensures
        next == (Stage::Move { staged: stage->Run_staged }),
{
}

/// A step that worked leads to the next one, which works on what the steps before it gave.
pub proof fn steps_that_work_lead_on(
    output: Seq<u8>,
    stage: Stage,
    event: RenderEvent,
    next: Stage,
)
    requires
        follows(output, stage, event, next),
    ensures
        stage is FindMmdc && event is Located && event->mmdc is Some && path::parent(output) is Some
            ==> (next matches Stage::CreateDir { mmdc, dir } && mmdc@ == (event->mmdc->0)@ && dir@
            == path::parent(output)->0),
        stage is CreateDir && event is Succeeded ==> (next matches Stage::CreateScratch {
            mmdc,
            dir,
        } && mmdc@ == stage->CreateDir_mmdc@ && dir@ == stage->CreateDir_dir@),
        stage is CreateScratch && event is Scratch ==> (next matches Stage::WriteInput {
            mmdc,
            dir,
            input,
        } && mmdc@ == stage->CreateScratch_mmdc@ && dir@ == stage->CreateScratch_dir@ && input@
            == path::join(event->dir@, vstd::utf8::encode_utf8("diagram.mmd"@))),
        stage is WriteInput && event is Written ==> (next matches Stage::Run { mmdc, args, staged }
            && mmdc@ == stage->WriteInput_mmdc@ && staged@ == path::join(
            stage->WriteInput_dir@,
            staged_name(output, event->pid, event->serial),
        ) && args@.len() >= 6 && args@[0]@ == vstd::utf8::encode_utf8("-i"@) && args@[1]@
            == stage->WriteInput_input@ && args@[2]@ == vstd::utf8::encode_utf8("-o"@) && args@[3]@
            == staged@ && args@[4]@ == vstd::utf8::encode_utf8("-b"@) && args@[5]@
            == vstd::utf8::encode_utf8("white"@) && (format_of(output)
            == vstd::utf8::encode_utf8("png"@) <==> args@.len() > 6) && (args@.len() > 6
            ==> args@.len() == 8 && args@[6]@ == vstd::utf8::encode_utf8("-s"@) && args@[7]@
            == vstd::utf8::encode_utf8("6"@))),
        stage is Run && event is Exited && event->success ==> next == (Stage::Move {
            staged: stage->Run_staged,
        }),
        stage is Move && event is Succeeded ==> next == (Stage::Done { result: Ok(()) }),
{
    if stage is WriteInput && event is Written {
        let args = next->args;
        mmdc_reads_input_and_writes_staged(
            stage->WriteInput_input@,
            next->Run_staged@,
            format_of(output),
        );
        assert(rows(args@).len() == args@.len());
        assert forall|i: int| 0 <= i < args@.len() implies rows(args@)[i] == #[trigger] args@[i]@ by {
            rows_are_taken_whole(args@, i);
        }
    }
}

/// A step that failed ends the render with the error of that step. Where mmdc was started, what it
/// may have written is removed first, once mmdc no longer runs.
pub proof fn steps_that_fail_end_the_render(
    output: Seq<u8>,
    stage: Stage,
    event: RenderEvent,
    next: Stage,
)
    requires
        follows(output, stage, event, next),
    ensures
        stage is FindMmdc && event is Located && event->mmdc is None ==> next == (Stage::Done {
            result: Err(RenderError::MmdcNotFound),
        }),
        stage is FindMmdc && event is Located && event->mmdc is Some && path::parent(output) is None
            ==> next == (Stage::Done { result: Err(RenderError::NoParent) }),
        stage is CreateDir && event is Failed ==> next == (Stage::Done {
            result: Err(RenderError::CreatingDir { dir: stage->CreateDir_dir }),
        }),
        stage is CreateScratch && event is Failed ==> next == (Stage::Done {
            result: Err(RenderError::CreatingScratch),
        }),
        stage is WriteInput && event is Failed ==> next == (Stage::Done {
            result: Err(RenderError::WritingSource),
        }),
        stage is Run && event is Failed ==> next == (Stage::Done {
            result: Err(RenderError::RunningMmdc),
        }),
        stage is Run && event is WaitFailed ==> next == (Stage::Done {
            result: Err(RenderError::WaitingForMmdc),
        }),
        stage is Run && event is TimedOut ==> next == (Stage::Kill { staged: stage->Run_staged }),
        stage is Kill && (event is Succeeded || event is Failed) ==> next == (Stage::Discard {
            staged: stage->Kill_staged,
            error: RenderError::TimedOut,
        }),
        stage is Run && event is Exited && !event->success ==> (next matches Stage::Discard {
            staged,
            error,
        } && staged == stage->Run_staged && (error matches RenderError::Failed { summary }
            && summary@ == diagram::summary(event->stderr@))),
        stage is Discard && (event is Succeeded || event is Failed) ==> next == (Stage::Done {
            result: Err(stage->Discard_error),
        }),
        stage is Move && event is Failed ==> (next matches Stage::Done {
            result: Err(RenderError::MovingIntoPlace { output: o }),
        } && o@ == output),
{
}

/// An event that is no answer to a stage leaves it as it is, and a render that is over stays so.
pub proof fn other_events_change_nothing(
    output: Seq<u8>,
    stage: Stage,
    event: RenderEvent,
    next: Stage,
)
    requires
        follows(output, stage, event, next),
    ensures
        stage is Done ==> next == stage,
        stage is FindMmdc && !(event is Located) ==> next == stage,
        stage is CreateDir && !(event is Succeeded || event is Failed) ==> next == stage,
        stage is CreateScratch && !(event is Scratch || event is Failed) ==> next == stage,
        stage is WriteInput && !(event is Written || event is Failed) ==> next == stage,
        stage is Run && !(event is Exited || event is Failed || event is WaitFailed
            || event is TimedOut) ==> next == stage,
        (stage is Kill || stage is Discard || stage is Move) && !(event is Succeeded
            || event is Failed) ==> next == stage,
{
}

/// A render of a source that is not blank, to an output that has a directory, succeeds wherever mmdc
/// is found, its directories and its input can be made, mmdc exits with success, whatever it
/// printed, and what it wrote can be moved.
pub proof fn render_succeeds_where_every_step_does(
    source: Seq<char>,
    output: Seq<u8>,
    stages: Seq<Stage>,
    events: Seq<RenderEvent>,
)
    requires
        course(source, output, stages, events),
        exists|i: int| 0 <= i < source.len() && !text::white(#[trigger] source[i]),
        path::parent(output) is Some,
        events.len() == 6,
        events[0] is Located && events[0]->mmdc is Some,
        events[1] is Succeeded,
        events[2] is Scratch,
        events[3] is Written,
        events[4] is Exited && events[4]->success,
        events[5] is Succeeded,
    ensures
        stages[4] is Run && stages[4]->Run_mmdc@ == (events[0]->mmdc->0)@,
        stages[5] == (Stage::Move { staged: stages[4]->Run_staged }),
        stages[6] == (Stage::Done { result: Ok(()) }),
        stages[4]->args@[1]@ == stages[3]->WriteInput_input@,
        stages[4]->args@[3]@ == stages[4]->Run_staged@,
        path::parent(stages[4]->Run_staged@) == path::parent(output),
{
    only_blank_sources_are_refused(source, stages[0]);
    assert(follows(output, stages[0], events[0], stages[0int + 1]));
    steps_that_work_lead_on(output, stages[0], events[0], stages[1]);
    assert(follows(output, stages[1], events[1], stages[1int + 1]));
    steps_that_work_lead_on(output, stages[1], events[1], stages[2]);
    assert(follows(output, stages[2], events[2], stages[2int + 1]));
    steps_that_work_lead_on(output, stages[2], events[2], stages[3]);
    assert(follows(output, stages[3], events[3], stages[3int + 1]));
    steps_that_work_lead_on(output, stages[3], events[3], stages[4]);
    assert(follows(output, stages[4], events[4], stages[4int + 1]));
    steps_that_work_lead_on(output, stages[4], events[4], stages[5]);
    assert(follows(output, stages[5], events[5], stages[5int + 1]));
    steps_that_work_lead_on(output, stages[5], events[5], stages[6]);
    staged_file_is_beside_output(output, events[3]->pid, events[3]->serial);
}

/// mmdc, when it runs, is told to read the input that was written, and to write the very file that
/// is later moved or removed.
pub proof fn what_mmdc_writes_is_what_is_moved(
    source: Seq<char>,
    output: Seq<u8>,
    stages: Seq<Stage>,
    events: Seq<RenderEvent>,
    i: int,
) -> (j: int)
    requires
        course(source, output, stages, events),
        0 <= i < stages.len(),
        stages[i] is Run || stages[i] is Kill || stages[i] is Discard || stages[i] is Move,
    ensures
        0 <= j < i,
        stages[j] is WriteInput,
        events[j] is Written,
        stages[j + 1] is Run,
        stages[j + 1]->args@[1]@ == stages[j]->WriteInput_input@,
        stages[j + 1]->args@[3]@ == stages[j + 1]->Run_staged@,
        stages[i] is Run ==> stages[i] == stages[j + 1],
        stages[i] is Kill ==> stages[i]->Kill_staged == stages[j + 1]->Run_staged,
        stages[i] is Discard ==> stages[i]->Discard_staged == stages[j + 1]->Run_staged,
        stages[i] is Move ==> stages[i]->Move_staged == stages[j + 1]->Run_staged,
    decreases i,
{
    if i == 0 {
        0
    } else {
        assert(follows(output, stages[i - 1], events[i - 1], stages[i - 1 + 1]));
        if stages[i - 1] is WriteInput {
            steps_that_work_lead_on(output, stages[i - 1], events[i - 1], stages[i]);
            i - 1
        } else {
            what_mmdc_writes_is_what_is_moved(source, output, stages, events, i - 1)
        }
    }
}

/// What the user is told of an error names the path, the output or the summary that it holds whole.
pub proof fn errors_are_told_whole(error: RenderError)
    ensures
        error is EmptyDiagram ==> error.text() == "diagram is empty"@,
        error is MmdcNotFound ==> error.text()
            == "mmdc not found. Install it with: npm install -g @mermaid-js/mermaid-cli"@,
        error is NoParent ==> error.text() == "output path has no parent directory"@,
        error is CreatingDir ==> error.text() == "creating "@ + path::shown(error->dir@),
        error is CreatingScratch ==> error.text() == "creating temp dir"@,
        error is WritingSource ==> error.text() == "writing diagram source"@,
        error is RunningMmdc ==> error.text() == "running mmdc"@,
        error is WaitingForMmdc ==> error.text() == "waiting for mmdc"@,
        error is TimedOut ==> error.text() == "mmdc timed out after "@ + numeral::decimal(30)
            + "s"@,
        error is Failed ==> error.text() == error->summary@,
        error is MovingIntoPlace ==> error.text() == "moving render into place at "@ + path::shown(
            error->output@,
        ),
{
}

} // verus!
