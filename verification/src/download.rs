//! Downloading the file a message links to or carries, and posting it back.
use vstd::prelude::*;

use crate::commands::text_eq;
use crate::numbers::{decimal, format_i64, format_u64, signed_decimal};
use crate::patterns::{find, link_pattern, link_pattern_spec, regex_find, regex_is_match, has_infix, contains_text};
use crate::text::chars_of;

use file_format::{FileFormat, Kind};

verus! {

/// Why a file could not be had from a message.
#[derive(Debug, Clone, Copy, PartialEq, Eq, Structural)]
pub enum DownloadFileFromMessageError {
    NoLinkFound,
    UnsupportedLink,
    FileTooLarge,
}

impl DownloadFileFromMessageError {
    /// The error's description, which the bot posts as its reply.
    pub fn message(&self) -> (s: String)
        ensures
            *self is NoLinkFound ==> s@ == "No link or file found"@,
            *self is UnsupportedLink ==> s@ == "Unsupported link or file"@,
            *self is FileTooLarge ==> s@ == "File too large"@,
    {
        match self {
            DownloadFileFromMessageError::NoLinkFound => "No link or file found".to_string(),
            DownloadFileFromMessageError::UnsupportedLink => "Unsupported link or file".to_string(),
            DownloadFileFromMessageError::FileTooLarge => "File too large".to_string(),
        }
    }
}

/// Why a channel could not be found.
#[derive(Debug, Clone, Copy, PartialEq, Eq, Structural)]
pub enum GetGuildChannelError {
    ChannelNotInGuild,
}

impl GetGuildChannelError {
    /// The error's description.
    pub fn message(&self) -> (s: String)
        ensures
            s@ == "The requested channel doesn't exist in the guild"@,
    {
        "The requested channel doesn't exist in the guild".to_string()
    }
}

/// Where the file of a message comes from.
pub enum DownloadSource {
    /// The first link of the message's text.
    Link { url: String },
    /// The first attachment of the message.
    Attachment,
}

/// The source of the file of a message: its first link, else its first attachment.
pub fn download_source(content: &str, has_attachment: bool) -> (r: Result<DownloadSource, DownloadFileFromMessageError>)
    ensures
        regex_is_match(link_pattern_spec(), content@) ==> (r matches Ok(DownloadSource::Link { url })
            && regex_find(link_pattern_spec(), content@) == Some(url@)),
        !regex_is_match(link_pattern_spec(), content@) && has_attachment ==> r matches Ok(DownloadSource::Attachment),
        !regex_is_match(link_pattern_spec(), content@) && !has_attachment ==> r == Err::<DownloadSource, DownloadFileFromMessageError>(DownloadFileFromMessageError::NoLinkFound),
{
    match find(link_pattern(), content) {
        Some(url) => Ok(DownloadSource::Link { url }),
        None => {
            if has_attachment {
                Ok(DownloadSource::Attachment)
            } else {
                Err(DownloadFileFromMessageError::NoLinkFound)
            }
        },
    }
}

/// The `yt-dlp` format choice for a size limit in megabytes: the best format under the limit,
/// else the best whose estimated size is under it, else the best.
pub open spec fn size_filter_text(max_mb: nat) -> Seq<char> {
    "b[filesize<"@ + decimal(max_mb) + "M]/b[filesize_approx<"@ + decimal(max_mb) + "M]/b"@
}

/// The arguments of the first download of a link.
pub fn ytdlp_args(max_filesize_mb: usize, url: &str) -> (args: Vec<String>)
    ensures
        args@.len() == 7,
        args@[0]@ == "-f"@,
        args@[1]@ == size_filter_text(max_filesize_mb as nat),
        args@[2]@ == "-o"@,
        args@[3]@ == "-"@,
        args@[4]@ == "--max-filesize"@,
        args@[5]@ == decimal(max_filesize_mb as nat) + "M"@,
        args@[6]@ == url@,
{
    let mb = format_u64(max_filesize_mb as u64);
    let filter = "b[filesize<".to_string().concat(mb.as_str()).concat("M]/b[filesize_approx<").concat(mb.as_str()).concat(
        "M]/b",
    );
    let mut args: Vec<String> = Vec::new();
    args.push("-f".to_string());
    args.push(filter);
    args.push("-o".to_string());
    args.push("-".to_string());
    args.push("--max-filesize".to_string());
    args.push(mb.concat("M"));
    args.push(url.to_string());
    args
}

/// The arguments of the second download of a link, without a format choice.
pub fn ytdlp_plain_args(max_filesize_mb: usize, url: &str) -> (args: Vec<String>)
    ensures
        args@.len() == 5,
        args@[0]@ == "-o"@,
        args@[1]@ == "-"@,
        args@[2]@ == "--max-filesize"@,
        args@[3]@ == decimal(max_filesize_mb as nat) + "M"@,
        args@[4]@ == url@,
{
    let mut args: Vec<String> = Vec::new();
    args.push("-o".to_string());
    args.push("-".to_string());
    args.push("--max-filesize".to_string());
    args.push(format_u64(max_filesize_mb as u64).concat("M"));
    args.push(url.to_string());
    args
}

/// What the bot does after the first download of a link failed.
#[derive(Debug, Clone, Copy, PartialEq, Eq, Structural)]
pub enum FailedDownloadStep {
    /// No format was small enough: list the formats to learn why.
    ListFormats,
    /// Give up with this error.
    Fail(DownloadFileFromMessageError),
}

/// The step after a failed first download, from what `yt-dlp` wrote to its error output.
pub fn after_failed_download(stderr: &str) -> (s: FailedDownloadStep)
    ensures
        has_infix(stderr@, "Requested format is not available"@) ==> s == FailedDownloadStep::ListFormats,
        !has_infix(stderr@, "Requested format is not available"@) ==> s == FailedDownloadStep::Fail(DownloadFileFromMessageError::UnsupportedLink),
{
    if contains_text(stderr, "Requested format is not available") {
        FailedDownloadStep::ListFormats
    } else {
        FailedDownloadStep::Fail(DownloadFileFromMessageError::UnsupportedLink)
    }
}

/// Whether the listed formats show sizes, in which case the file is too large (else the bot
/// downloads again without a format choice).
pub fn formats_show_sizes(formats: &str) -> (b: bool)
    ensures
        b == has_infix(formats@, "FILESIZE"@),
{
    contains_text(formats, "FILESIZE")
}

/// Whether the second download is larger than the limit (a megabyte being a million bytes).
pub fn over_limit(len: usize, max_filesize_mb: usize) -> (b: bool)
    ensures
        b == (len > max_filesize_mb * 1_000_000),
{
    (len as u128) > (max_filesize_mb as u128) * 1_000_000
}

/// The runs of `yt-dlp` that downloading a link may take, in order.
#[derive(Debug, Clone, Copy, PartialEq, Eq, Structural)]
pub enum YtdlpStage {
    /// The download with a format under the size limit.
    Download,
    /// Listing the formats, after no format was small enough.
    ListFormats,
    /// The download without a format choice.
    PlainDownload,
}

/// What downloading a link does after a run of `yt-dlp`.
#[derive(Debug, Clone, Copy, PartialEq, Eq, Structural)]
pub enum YtdlpNext {
    /// Run `yt-dlp` for this stage.
    Run(YtdlpStage),
    /// The output of the last run is the file.
    Done,
    /// Give up with this error.
    Fail(DownloadFileFromMessageError),
}

/// The arguments of the run of `yt-dlp` for a stage.
pub fn stage_args(stage: YtdlpStage, max_filesize_mb: usize, url: &str) -> (args: Vec<String>)
    ensures
        stage is ListFormats ==> args@.len() == 2 && args@[0]@ == "--list-formats"@ && args@[1]@ == url@,
        stage is Download ==> args@.len() == 7 && args@[1]@ == size_filter_text(max_filesize_mb as nat) && args@[6]@ == url@,
        stage is PlainDownload ==> args@.len() == 5 && args@[3]@ == decimal(max_filesize_mb as nat) + "M"@ && args@[4]@ == url@,
{
    match stage {
        YtdlpStage::Download => ytdlp_args(max_filesize_mb, url),
        YtdlpStage::ListFormats => {
            let mut args: Vec<String> = Vec::new();
            args.push("--list-formats".to_string());
            args.push(url.to_string());
            args
        },
        YtdlpStage::PlainDownload => ytdlp_plain_args(max_filesize_mb, url),
    }
}

/// The step after the run of `stage`, from whether it succeeded, what it wrote (its output
/// as text, and its length in bytes) and its error output: a failed download goes on to list
/// the formats when no format was small enough and fails otherwise; formats that show sizes
/// mean the file is too large, else the download is tried without a format choice, whose
/// output must be within the limit.
pub fn ytdlp_next(stage: YtdlpStage, max_filesize_mb: usize, succeeded: bool, stdout: &str, stdout_len: usize, stderr: &str) -> (n: YtdlpNext)
    ensures
        stage is Download && succeeded ==> n == YtdlpNext::Done,
        stage is Download && !succeeded ==> n == (if has_infix(stderr@, "Requested format is not available"@) {
            YtdlpNext::Run(YtdlpStage::ListFormats)
        } else {
            YtdlpNext::Fail(DownloadFileFromMessageError::UnsupportedLink)
        }),
        stage is ListFormats ==> n == (if has_infix(stdout@, "FILESIZE"@) {
            YtdlpNext::Fail(DownloadFileFromMessageError::FileTooLarge)
        } else {
            YtdlpNext::Run(YtdlpStage::PlainDownload)
        }),
        stage is PlainDownload ==> n == (if stdout_len > max_filesize_mb * 1_000_000 {
            YtdlpNext::Fail(DownloadFileFromMessageError::FileTooLarge)
        } else {
            YtdlpNext::Done
        }),
{
    match stage {
        YtdlpStage::Download => {
            if succeeded {
                YtdlpNext::Done
            } else {
                match after_failed_download(stderr) {
                    FailedDownloadStep::ListFormats => YtdlpNext::Run(YtdlpStage::ListFormats),
                    FailedDownloadStep::Fail(e) => YtdlpNext::Fail(e),
                }
            }
        },
        YtdlpStage::ListFormats => {
            if formats_show_sizes(stdout) {
                YtdlpNext::Fail(DownloadFileFromMessageError::FileTooLarge)
            } else {
                YtdlpNext::Run(YtdlpStage::PlainDownload)
            }
        },
        YtdlpStage::PlainDownload => {
            if over_limit(stdout_len, max_filesize_mb) {
                YtdlpNext::Fail(DownloadFileFromMessageError::FileTooLarge)
            } else {
                YtdlpNext::Done
            }
        },
    }
}

/// The kinds of file the bot tells apart among those of the `file-format` crate
/// (`file_format::Kind`).
#[derive(Debug, Clone, Copy, PartialEq, Eq, Structural)]
pub enum FileKind {
    Audio,
    Video,
    Image,
    /// Data of no other kind.
    Other,
    /// Any other kind: archives, documents, executables, fonts and the like.
    NotMedia,
}

/// The kind `file_format::FileFormat::from_bytes` detects for these bytes.
pub uninterp spec fn detected_kind(bytes: Seq<u8>) -> FileKind;

/// The media type `file_format::FileFormat::from_bytes` detects for these bytes.
pub uninterp spec fn detected_media_type(bytes: Seq<u8>) -> Seq<char>;

/// The usual extension of the format `file_format::FileFormat::from_bytes` detects.
pub uninterp spec fn detected_extension(bytes: Seq<u8>) -> Seq<char>;

/// `FileFormat::from_bytes(bytes).kind()`. The contract names the result, which depends on the
/// bytes alone; how the crate recognises formats is not stated.
#[verifier::external_body]
fn file_kind(bytes: &[u8]) -> (k: FileKind)
    ensures
        k == detected_kind(bytes@),
{
    match FileFormat::from_bytes(bytes).kind() {
        Kind::Audio => FileKind::Audio,
        Kind::Video => FileKind::Video,
        Kind::Image => FileKind::Image,
        Kind::Other => FileKind::Other,
        _ => FileKind::NotMedia,
    }
}

/// `FileFormat::from_bytes(bytes).media_type()`. The contract names the result.
#[verifier::external_body]
fn file_media_type(bytes: &[u8]) -> (s: String)
    ensures
        s@ == detected_media_type(bytes@),
{
    FileFormat::from_bytes(bytes).media_type().to_string()
}

/// `FileFormat::from_bytes(bytes).extension()`. The contract names the result.
#[verifier::external_body]
fn file_extension(bytes: &[u8]) -> (s: String)
    ensures
        s@ == detected_extension(bytes@),
{
    FileFormat::from_bytes(bytes).extension().to_string()
}

/// The kinds of file the bot posts: audio, video, images, and what fits no other kind.
pub open spec fn postable_kind(k: FileKind) -> bool {
    k == FileKind::Audio || k == FileKind::Video || k == FileKind::Image || k == FileKind::Other
}

/// What the bot does with downloaded bytes.
#[derive(Debug, Clone, Copy, PartialEq, Eq, Structural)]
pub enum DownloadCheck {
    /// Post them as they are.
    Keep,
    /// They are an MPEG transport stream: convert them to MP4 first.
    Convert,
}

/// Whether downloaded bytes are posted, converted first, or refused.
pub fn check_download(bytes: &[u8]) -> (r: Result<DownloadCheck, DownloadFileFromMessageError>)
    ensures
        !postable_kind(detected_kind(bytes@)) ==> r == Err::<DownloadCheck, DownloadFileFromMessageError>(DownloadFileFromMessageError::UnsupportedLink),
        postable_kind(detected_kind(bytes@)) && detected_media_type(bytes@) == "video/mp2t"@ ==> r == Ok::<DownloadCheck, DownloadFileFromMessageError>(DownloadCheck::Convert),
        postable_kind(detected_kind(bytes@)) && detected_media_type(bytes@) != "video/mp2t"@ ==> r == Ok::<DownloadCheck, DownloadFileFromMessageError>(DownloadCheck::Keep),
{
    let k = file_kind(bytes);
    if !(k == FileKind::Audio || k == FileKind::Video || k == FileKind::Image || k == FileKind::Other) {
        return Err(DownloadFileFromMessageError::UnsupportedLink);
    }
    let media_type = file_media_type(bytes);
    if text_eq(media_type.as_str(), "video/mp2t") {
        Ok(DownloadCheck::Convert)
    } else {
        Ok(DownloadCheck::Keep)
    }
}

/// The extension a downloaded link's file is posted with: that of the format detected in its
/// (possibly converted) bytes.
pub fn downloaded_extension(bytes: &[u8]) -> (s: String)
    ensures
        s@ == detected_extension(bytes@),
{
    file_extension(bytes)
}

/// The index of the last `.` in `s`, if any.
pub open spec fn last_dot(s: Seq<char>) -> Option<int>
    decreases s.len(),
{
    if s.len() == 0 {
        None
    } else if s.last() == '.' {
        Some(s.len() - 1)
    } else {
        last_dot(s.drop_last())
    }
}

/// The extension of a file name as `Path::extension` reads it: what follows the last `.`,
/// none when there is no `.`, when the only one starts the name, or for `..`.
pub open spec fn path_extension(name: Seq<char>) -> Option<Seq<char>> {
    if name == ".."@ {
        None
    } else {
        match last_dot(name) {
            None => None,
            Some(i) => if i == 0 { None } else { Some(name.skip(i + 1)) },
        }
    }
}

/// The extension of an attachment's file name (a name without `/`).
pub fn attachment_extension(file_name: &str) -> (r: Option<String>)
    ensures
        r matches Some(e) ==> path_extension(file_name@) == Some(e@),
        r is None ==> path_extension(file_name@) is None,
{
    if text_eq(file_name, "..") {
        return None;
    }
    let c = chars_of(file_name);
    let mut i: usize = c.len();
    assert(c@.take(i as int) =~= c@);
    while i > 0 && c[i - 1] != '.'
        invariant
            i <= c@.len(),
            c@ == file_name@,
            last_dot(c@) == last_dot(c@.take(i as int)),
        decreases i,
    {
        assert(c@.take(i as int).drop_last() =~= c@.take(i - 1));
        i = i - 1;
    }
    if i == 0 {
        assert(c@.take(0) =~= Seq::<char>::empty());
        return None;
    }
    assert(c@.take(i as int).last() == '.');
    if i == 1 {
        return None;
    }
    let mut e = String::new();
    let mut j: usize = i;
    while j < c.len()
        invariant
            i <= j <= c@.len(),
            e@ == c@.subrange(i as int, j as int),
        decreases c@.len() - j,
    {
        crate::text::push_char(&mut e, c[j]);
        assert(e@ =~= c@.subrange(i as int, j + 1));
        j = j + 1;
    }
    assert(e@ =~= c@.skip(i as int));
    Some(e)
}

/// The extension an attachment is posted with, when its file name has one: `mp4` when its
/// bytes were converted, else that of its file name.
pub fn attachment_posted_extension(file_name: &str, check: DownloadCheck) -> (r: Option<String>)
    ensures
        path_extension(file_name@) is None ==> r is None,
        path_extension(file_name@) is Some && check == DownloadCheck::Convert ==> (r matches Some(e) && e@ == "mp4"@),
        path_extension(file_name@) is Some && check == DownloadCheck::Keep ==> (r matches Some(e) && Some(e@) == path_extension(file_name@)),
{
    let extension = attachment_extension(file_name);
    match extension {
        None => None,
        Some(e) => match check {
            DownloadCheck::Convert => Some("mp4".to_string()),
            DownloadCheck::Keep => Some(e),
        },
    }
}

/// The name under which a downloaded file is posted: `doki-`, the seconds since the bot's
/// epoch (the start of December 2019), a dot and the extension.
pub fn attachment_name(now_secs: i64, extension: &str) -> (s: String)
    requires
        now_secs >= i64::MIN + 1_575_072_000,
    ensures
        s@ == "doki-"@ + signed_decimal(now_secs - 1_575_072_000) + "."@ + extension@,
{
    "doki-".to_string().concat(format_i64(now_secs - 1_575_072_000).as_str()).concat(".").concat(extension)
}

/// The size limits the bot tries when posting a file fails: 50 MB, then 10 MB.
pub open spec fn next_limit(max_filesize_mb: nat) -> Option<nat> {
    if max_filesize_mb == 50 { Some(10) } else { None }
}

/// The size limit to try after posting a file at `max_filesize_mb` failed, or `None` when the
/// bot gives up (and answers "Video too large").
pub fn next_max_filesize(max_filesize_mb: usize) -> (r: Option<usize>)
    requires
        max_filesize_mb == 50 || max_filesize_mb == 10,
    ensures
        r matches Some(m) ==> next_limit(max_filesize_mb as nat) == Some(m as nat),
        r is None ==> next_limit(max_filesize_mb as nat) is None,
{
    if max_filesize_mb == 50 {
        Some(10)
    } else {
        None
    }
}

/// The size limit, in MB, of the first download when posting the file of a message.
pub fn first_post_limit() -> (mb: usize)
    ensures
        mb == 50,
{
    50
}

/// What happened to the last download and post of a file.
#[derive(Debug, Clone, Copy, PartialEq, Eq, Structural)]
pub enum PostEvent {
    /// The download failed.
    DownloadFailed(DownloadFileFromMessageError),
    /// The file was downloaded, but posting it failed.
    PostFailed,
    /// The file was posted.
    Posted,
}

/// What the bot does next when posting the file of a message.
pub enum PostAction {
    /// Download the file again with this size limit, in MB, and post it.
    Download(usize),
    /// Answer with this text and stop.
    Reply(String),
    /// Stop: the file was posted.
    Stop,
}

/// The next step of posting the file of a message, after `event` happened to the download and
/// post made with the limit `max_filesize_mb`: a failed download is answered with the error's
/// text; a failed post is tried again at 10 MB after 50 MB, and answered "Video too large"
/// after 10 MB; a posted file ends it.
pub fn post_file_step(max_filesize_mb: usize, event: PostEvent) -> (a: PostAction)
    requires
        max_filesize_mb == 50 || max_filesize_mb == 10,
    ensures
        event matches PostEvent::DownloadFailed(e) ==> (a matches PostAction::Reply(t) && t@ == match e {
            DownloadFileFromMessageError::NoLinkFound => "No link or file found"@,
            DownloadFileFromMessageError::UnsupportedLink => "Unsupported link or file"@,
            DownloadFileFromMessageError::FileTooLarge => "File too large"@,
        }),
        event is Posted ==> a is Stop,
        event is PostFailed ==> match next_limit(max_filesize_mb as nat) {
            Some(m) => a matches PostAction::Download(n) && n == m,
            None => a matches PostAction::Reply(t) && t@ == "Video too large"@,
        },
{
    match event {
        PostEvent::DownloadFailed(e) => PostAction::Reply(e.message()),
        PostEvent::Posted => PostAction::Stop,
        PostEvent::PostFailed => match next_max_filesize(max_filesize_mb) {
            Some(m) => PostAction::Download(m),
            None => PostAction::Reply("Video too large".to_string()),
        },
    }
}

/// Posting a file tries at most two limits, and the second one is smaller: starting at 50 MB,
/// a failed post downloads again at 10 MB, and a second failed post gives up.
pub proof fn law_post_limits_shrink()
    ensures
        next_limit(50) == Some(10nat),
        next_limit(10) is None,
{
}

} // verus!
