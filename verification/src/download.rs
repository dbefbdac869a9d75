//! Download progress reporting and URL fallbacks.

use vstd::prelude::*;
use vstd::string::*;

use crate::archive_path::strs_view;
use crate::error::{detail_payload, AppError, ErrorKind};
use crate::text::{concat_str, path_debug, path_debug_text, str_to_string};

verus! {

/// Progress of one download, as reported to clients.
#[derive(Debug)]
pub struct DownloadProgress {
    pub id: String,
    pub downloaded: u64,
    pub total: Option<u64>,
    /// Progress percentage (0-100); `None` when unknown.
    pub progress: Option<u8>,
    pub step: String,
    pub message: String,
}

/// Progress while downloading, capped at 99 (100 is reported once done):
/// `downloaded * 99 / total` with saturating multiplication; unknown
/// without a total, 0 for an empty total.
pub open spec fn percent_spec(downloaded: u64, total: Option<u64>) -> Option<u8> {
    match total {
        None => None,
        Some(t) => if t == 0 {
            Some(0u8)
        } else {
            let m: int = if downloaded * 99 > u64::MAX {
                u64::MAX as int
            } else {
                downloaded * 99
            };
            let p = m / (t as int);
            Some((if p > 99 {
                99
            } else {
                p
            }) as u8)
        },
    }
}

pub fn compute_percent_0_99(downloaded: u64, total: Option<u64>) -> (r: Option<u8>)
    ensures
        r == percent_spec(downloaded, total),
{
    let t = match total {
        Some(t) => t,
        None => {
            return None;
        },
    };
    if t == 0 {
        return Some(0);
    }
    let m: u64 = if downloaded > u64::MAX / 99 {
        u64::MAX
    } else {
        downloaded * 99
    };
    assert(downloaded > u64::MAX / 99 <==> downloaded * 99 > u64::MAX) by (nonlinear_arith);
    let p = m / t;
    if p > 99 {
        Some(99)
    } else {
        Some(p as u8)
    }
}

pub fn download_progress(
    id: &str,
    downloaded: u64,
    total: Option<u64>,
    progress: Option<u8>,
    step: &str,
    message: &str,
) -> (r: DownloadProgress)
    ensures
        r.id@ == id@,
        r.downloaded == downloaded,
        r.total == total,
        r.progress == progress,
        r.step@ == step@,
        r.message@ == message@,
{
    DownloadProgress {
        id: crate::text::str_to_string(id),
        downloaded,
        total,
        progress,
        step: crate::text::str_to_string(step),
        message: crate::text::str_to_string(message),
    }
}

pub open spec fn no_url_message() -> Seq<char> {
    "没有可用的下载地址"@
}

/// The outcome of trying download URLs in order (the attempts made, each
/// stopping at the first success): success if an attempt succeeded, else the
/// last failure, or "no usable URL" when there was none.
pub fn download_fallback_outcome(attempts: Vec<Result<(), AppError>>) -> (r: Result<(), AppError>)
    ensures
        (exists|i: int| 0 <= i < attempts@.len() && attempts@[i] is Ok) ==> r is Ok,
        !(exists|i: int| 0 <= i < attempts@.len() && attempts@[i] is Ok) ==> (if attempts@.len()
            == 0 {
            r matches Err(e) && e@.0 == ErrorKind::Network && e@.1 == detail_payload(
                no_url_message(),
            )
        } else {
            r == attempts@.last()
        }),
{
    let ghost all = attempts@;
    let mut rest = attempts;
    let mut last_error: Option<AppError> = None;
    let ghost mut i: int = 0;
    while rest.len() > 0
        invariant
            0 <= i <= all.len(),
            all == attempts@,
            rest@ == all.subrange(i, all.len() as int),
            forall|j: int| 0 <= j < i ==> all[j] is Err,
            i == 0 <==> last_error is None,
            i > 0 ==> (last_error matches Some(e) && all[i - 1] == Err::<(), AppError>(e)),
        decreases rest.len(),
    {
        let ghost before = rest@;
        let a = rest.remove(0);
        proof {
            assert(a == before[0]);
            assert(all.subrange(i, all.len() as int)[0] == all[i]);
            assert(rest@ =~= all.subrange(i + 1, all.len() as int));
        }
        match a {
            Ok(()) => {
                assert(all[i] is Ok);
                return Ok(());
            },
            Err(e) => {
                last_error = Some(e);
            },
        }
        proof {
            i = i + 1;
        }
    }
    match last_error {
        Some(e) => Err(e),
        None => Err(AppError::network("没有可用的下载地址")),
    }
}

/// Whether a progress event is due: at least 100 ms since the last one, or
/// a higher percentage than last reported.
pub fn should_emit_progress(elapsed_ms: u128, current_percent: u8, last_percent: u8) -> (b: bool)
    ensures
        b == (elapsed_ms >= 100 || current_percent > last_percent),
{
    elapsed_ms >= 100 || current_percent > last_percent
}

/// The percentage reported when the body has been read: as computed, or 99
/// when unknown (100 is kept for the final event).
pub fn completed_download_percent(downloaded: u64, total: Option<u64>) -> (r: Option<u8>)
    ensures
        r == (match percent_spec(downloaded, total) {
            Some(p) => Some(p),
            None => Some(99u8),
        }),
{
    match compute_percent_0_99(downloaded, total) {
        Some(p) => Some(p),
        None => Some(99),
    }
}

pub open spec fn no_downloader_message() -> Seq<char> {
    "下载失败：未找到 curl 或 wget 系统命令"@
}

/// The system downloader and its arguments: curl when present, else wget.
pub fn system_download_command(
    curl_available: bool,
    wget_available: bool,
    url: &str,
    dest: &str,
) -> (r: Result<(&'static str, Vec<String>), AppError>)
    ensures
        curl_available ==> (r matches Ok((p, args)) && p@ == "curl"@ && strs_view(args@) == seq![
            "-L"@,
            "--max-time"@,
            "180"@,
            "--retry"@,
            "2"@,
            "-o"@,
            dest@,
            url@,
        ]),
        !curl_available && wget_available ==> (r matches Ok((p, args)) && p@ == "wget"@ && strs_view(
            args@,
        ) == seq!["--timeout=180"@, "--tries=2"@, "-O"@, dest@, url@]),
        !curl_available && !wget_available ==> (r matches Err(e) && e@ == (
            ErrorKind::Network,
            detail_payload(no_downloader_message()),
        )),
{
    let mut args: Vec<String> = Vec::new();
    if curl_available {
        args.push(str_to_string("-L"));
        args.push(str_to_string("--max-time"));
        args.push(str_to_string("180"));
        args.push(str_to_string("--retry"));
        args.push(str_to_string("2"));
        args.push(str_to_string("-o"));
        args.push(str_to_string(dest));
        args.push(str_to_string(url));
        assert(strs_view(args@) =~= seq![
            "-L"@,
            "--max-time"@,
            "180"@,
            "--retry"@,
            "2"@,
            "-o"@,
            dest@,
            url@,
        ]);
        Ok(("curl", args))
    } else if wget_available {
        args.push(str_to_string("--timeout=180"));
        args.push(str_to_string("--tries=2"));
        args.push(str_to_string("-O"));
        args.push(str_to_string(dest));
        args.push(str_to_string(url));
        assert(strs_view(args@) =~= seq!["--timeout=180"@, "--tries=2"@, "-O"@, dest@, url@]);
        Ok(("wget", args))
    } else {
        Err(AppError::network("下载失败：未找到 curl 或 wget 系统命令"))
    }
}

/// The error when the system downloader exits unsuccessfully, given its
/// exit status text and its error output.
pub fn system_download_failure(program: &str, status: &str, stderr: &str) -> (e: AppError)
    ensures
        e@ == (
            ErrorKind::Network,
            detail_payload(program@ + " 下载失败 (exit: "@ + status@ + "): "@ + stderr@),
        ),
{
    let a = concat_str(program, " 下载失败 (exit: ");
    let b = concat_str(a.as_str(), status);
    let c = concat_str(b.as_str(), "): ");
    let m = concat_str(c.as_str(), stderr);
    AppError::network(m.as_str())
}

/// After the system downloader succeeded the file must exist and not be empty.
pub fn check_system_download(program: &str, dest: &str, present: bool, size: u64) -> (r: Result<
    (),
    AppError,
>)
    ensures
        r is Ok <==> (present && size > 0),
        r matches Err(e) ==> e@ == (
            ErrorKind::Network,
            detail_payload(program@ + " 下载后文件 "@ + path_debug(dest@) + " 为空或不存在"@),
        ),
{
    if !present || size == 0 {
        let d = path_debug_text(dest);
        let a = concat_str(program, " 下载后文件 ");
        let b = concat_str(a.as_str(), d.as_str());
        let m = concat_str(b.as_str(), " 为空或不存在");
        Err(AppError::network(m.as_str()))
    } else {
        Ok(())
    }
}

} // verus!
