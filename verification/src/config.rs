//! The settings of the application.

use vstd::prelude::*;
use vstd::string::{StrSliceExecFns, StringExecFns};

verus! {

/// Every one of `digits` is one of the ten decimal digits, and there is one
/// at least.
pub open spec fn is_decimal(digits: Seq<char>) -> bool {
    digits.len() > 0 && forall|i: int|
        0 <= i < digits.len() ==> '0' as u32 <= #[trigger] digits[i] as u32 <= '9' as u32
}

/// The number that the decimal digits `digits` write.
pub open spec fn decimal_value(digits: Seq<char>) -> nat
    decreases digits.len(),
{
    if digits.len() == 0 {
        0
    } else {
        (10 * decimal_value(digits.drop_last()) + (digits.last() as u32 - '0' as u32)) as nat
    }
}

/// The number that `text` writes: `text` is decimal digits, after a `+` or
/// after nothing, and what they write is within the range of `u32`. Any
/// other text writes no number.
pub open spec fn parsed_u32(text: Seq<char>) -> Option<u32> {
    let digits = if text.len() > 0 && text[0] == '+' {
        text.skip(1)
    } else {
        text
    };
    if is_decimal(digits) && decimal_value(digits) <= u32::MAX {
        Some(decimal_value(digits) as u32)
    } else {
        None
    }
}

/// Calls `str::parse::<u32>`. Trusted: that it reads a number as
/// `parsed_u32` says, from decimal digits after an optional `+`, and fails on
/// any other text and on a number out of the range of `u32`.
#[verifier::external_body]
fn parse_u32(text: &str) -> (res: Option<u32>)
    ensures
        res == parsed_u32(text@),
{
    text.parse::<u32>().ok()
}

/// The settings of the application.
#[derive(Debug)]
pub struct Config {
    pub data_dir: String,
    pub worker_count: u32,
    pub base_uri: String,
}

/// The path of the entry `name` in the directory `dir`, as paths are joined
/// where `/` separates their parts: the separator stands between the two
/// unless `dir` is empty or ends in it already.
pub open spec fn spec_join(dir: Seq<char>, name: Seq<char>) -> Seq<char> {
    if dir.len() == 0 || dir.last() == '/' {
        dir + name
    } else {
        dir + "/"@ + name
    }
}

pub fn join(dir: &str, name: &str) -> (res: String)
    ensures
        res@ == spec_join(dir@, name@),
{
    let len = dir.unicode_len();
    let mut path = dir.to_owned();
    if len > 0 && dir.get_char(len - 1) != '/' {
        path.append("/");
    }
    path.append(name);
    path
}

impl Config {
    /// The settings with the data directory `data_dir`, the address `base_url`
    /// and `worker_count` workers, where each is given, and else with
    /// `./data`, `http://localhost:8000/` and one worker.
    pub fn with_defaults(
        data_dir: Option<String>,
        base_url: Option<String>,
        worker_count: Option<u32>,
    ) -> (res: Config)
        ensures
            res.data_dir@ == match data_dir {
                Some(dir) => dir@,
                None => "./data"@,
            },
            res.base_uri@ == match base_url {
                Some(url) => url@,
                None => "http://localhost:8000/"@,
            },
            res.worker_count == match worker_count {
                Some(count) => count,
                None => 1,
            },
    {
        let data_dir = match data_dir {
            Some(dir) => dir,
            None => "./data".to_owned(),
        };
        let base_uri = match base_url {
            Some(url) => url,
            None => "http://localhost:8000/".to_owned(),
        };
        let worker_count = match worker_count {
            Some(count) => count,
            None => 1,
        };
        Config { data_dir, worker_count, base_uri }
    }

    /// The settings that the environment asks for: the data directory
    /// `data_dir`, the address `base_url` and the number of workers
    /// `worker_count`, each as it was found there, if it was, and else as
    /// `with_defaults` has it. A worker count that is no number gives no
    /// settings.
    pub fn from_environment(
        data_dir: Option<String>,
        base_url: Option<String>,
        worker_count: Option<String>,
    ) -> (res: Option<Config>)
        ensures
            match res {
                Some(config) => {
                    &&& config.data_dir@ == match data_dir {
                        Some(dir) => dir@,
                        None => "./data"@,
                    }
                    &&& config.base_uri@ == match base_url {
                        Some(url) => url@,
                        None => "http://localhost:8000/"@,
                    }
                    &&& match worker_count {
                        Some(count) => parsed_u32(count@) == Some(config.worker_count),
                        None => config.worker_count == 1,
                    }
                },
                None => worker_count matches Some(count) && parsed_u32(count@) is None,
            },
    {
        let workers = match &worker_count {
            Some(count) => match parse_u32(count.as_str()) {
                Some(n) => Some(n),
                None => {
                    return None;
                },
            },
            None => None,
        };
        Some(Config::with_defaults(data_dir, base_url, workers))
    }

    pub fn base_uri(&self) -> (res: &str)
        ensures
            res@ == self.base_uri@,
    {
        self.base_uri.as_str()
    }

    pub fn token_cache_path(&self) -> (res: String)
        ensures
            res@ == spec_join(self.data_dir@, ".spotify_token_cache.json"@),
    {
        join(self.data_dir.as_str(), ".spotify_token_cache.json")
    }

    pub fn downloads_path(&self) -> (res: String)
        ensures
            res@ == spec_join(self.data_dir@, "downloads"@),
    {
        join(self.data_dir.as_str(), "downloads")
    }

    pub fn db_path(&self) -> (res: String)
        ensures
            res@ == spec_join(self.data_dir@, "backup-requests.db"@),
    {
        join(self.data_dir.as_str(), "backup-requests.db")
    }
}

} // verus!
