use vstd::prelude::*;
use crate::downloader::util::{url_parsed, parse_host};

verus! {

broadcast use vstd::string::group_string_axioms;

/// Configuration key for the number of download threads.
pub const CONF_DOWNLOADER_THREADS: &'static str = "DownloaderThreads";
/// Configuration key for cleaning the databases.
pub const CONF_DATABASES_CLEANUP: &'static str = "DatabasesCleanup";
/// Download threads where the configured number is not allowed.
pub const DOWNLOADER_THREADS_DEFAULT: u8 = 2;
/// Seconds between rounds of the download loop.
pub const DOWNLOADER_LOOP_DELAY_S: u8 = 1;
/// Milliseconds a download thread waits between looks at the queue.
pub const DOWNLOADER_LOOP_WAIT_MS: u64 = 200;
/// Capacity of the download job queue.
pub const DOWNLOADER_JOB_QUEUE: usize = 2000;
/// Kinds of download jobs.
pub const DLKIND_MAX: usize = 7;

/// A download job: its kind (see `dl_char_for_kind`), the host it talks to, if known,
/// and the subscription it is for.
pub trait DLKind {
    fn kind(&self) -> u8;
    fn hostname(&self) -> Option<String>;
    fn subscription_id(&self) -> isize;
}

/// Settings of the downloader.
#[derive(Clone, Copy, Debug)]
pub struct Config {
    pub num_downloader_threads: u8,
}

impl Default for Config {
    /// One download thread.
    fn default() -> (r: Config)
        ensures
            r.num_downloader_threads == 1,
    {
        Config { num_downloader_threads: 1 }
    }
}

/// The host of a web address; nothing where it is no valid URL or has no host.
pub fn host_from_url(url: &String) -> (r: Option<String>)
    ensures
        match r {
            Some(h) => url_parsed(url@) matches Some((_, Some(h0), _)) && h0 == h@,
            None => !(url_parsed(url@) matches Some((_, Some(_), _))),
        },
{
    parse_host(url.as_str())
}

/// Whether the job at the front of the queue waits: it talks to a host that a busy
/// download thread is talking to already (each thread given as its job kind and host,
/// the empty host for an idle one).
pub fn host_in_use(job_host: &Option<String>, busy: &Vec<(u8, String)>) -> (r: bool)
    ensures
        r == match job_host {
            Some(h) => h@.len() > 0 && exists|i: int| 0 <= i < busy@.len() && (#[trigger] busy@[i]).1@ == h@,
            None => false,
        },
{
    match job_host {
        None => false,
        Some(h) => {
            let mut i: usize = 0;
            while i < busy.len()
                invariant
                    i <= busy@.len(),
                    *job_host == Some(*h),
                    forall|k: int| 0 <= k < i ==> !((#[trigger] busy@[k]).1@ == h@ && h@.len() > 0),
                decreases busy.len() - i,
            {
                let hn = &busy[i].1;
                if crate::text::chars_of(hn.as_str()).len() > 0 && *hn == *h {
                    proof {
                        assert(busy@[i as int].1@ == h@);
                    }
                    return true;
                }
                i = i + 1;
            }
            false
        },
    }
}

/// The number of download threads to start: the configured one where it is between 1
/// and `max_threads`, else the default.
pub fn checked_thread_count(configured: u8, max_threads: u8) -> (r: u8)
    ensures
        r == if configured == 0 || configured > max_threads { DOWNLOADER_THREADS_DEFAULT } else { configured },
{
    if configured == 0 || configured > max_threads {
        DOWNLOADER_THREADS_DEFAULT
    } else {
        configured
    }
}

/// Takes a new number of download threads where it is between 1 and `max_threads`;
/// returns whether it was taken.
pub fn set_conf_num_threads(config: &mut Config, n: u8, max_threads: u8) -> (r: bool)
    ensures
        r == (1 <= n && n <= max_threads),
        final(config).num_downloader_threads == if r { n } else { old(config).num_downloader_threads },
{
    if n < 1 || n > max_threads {
        return false;
    }
    config.num_downloader_threads = n;
    true
}

} // verus!
