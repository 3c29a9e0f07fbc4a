//! User settings and the file a dump is written to.

use vstd::prelude::*;

use crate::paths::{join_path, spec_path_join};
use crate::text::{spec_starts_with, starts_with, to_owned_string};

verus! {

/// User settings, read from `~/.dopper/settings.toml`.
#[derive(Debug)]
pub struct Config {
    /// Where dumps go; `~/` at its start stands for the home directory.
    pub dump_path: Option<String>,
}

impl View for Config {
    type V = Option<Seq<char>>;

    open spec fn view(&self) -> Option<Seq<char>> {
        match self.dump_path {
            Some(p) => Some(p@),
            None => None,
        }
    }
}

/// Calls `directories::UserDirs::new` and gives its home directory as text.
/// The home directory comes from the environment, so nothing is stated of it.
#[verifier::external_body]
pub(crate) fn home_dir() -> Option<String> {
    directories::UserDirs::new().map(|dirs| dirs.home_dir().to_string_lossy().into_owned())
}

/// The dump file for a configured path and a home directory: a configured
/// path, with a leading `~/` replaced by the home directory where one is
/// known; else `.dopper/dump.json` in the home directory, or relative to the
/// working directory without one.
pub open spec fn spec_dump_path(dump_path: Option<Seq<char>>, home: Option<Seq<char>>) -> Seq<char> {
    match dump_path {
        Some(p) => if spec_starts_with(p, "~/"@) && home is Some {
            spec_path_join(home->0, p.subrange(2, p.len() as int))
        } else {
            p
        },
        None => match home {
            Some(h) => spec_path_join(spec_path_join(h, ".dopper"@), "dump.json"@),
            None => ".dopper/dump.json"@,
        },
    }
}

/// The dump file for `config`, given the home directory.
pub fn dump_path_for(config: &Config, home: Option<&str>) -> (r: String)
    ensures
        r@ == spec_dump_path(config@, match home {
            Some(h) => Some(h@),
            None => None,
        }),
{
    proof {
        reveal_strlit("~/");
    }
    match &config.dump_path {
        Some(path) => {
            let p = path.as_str();
            match home {
                Some(h) => {
                    if starts_with(p, "~/") {
                        let n = p.unicode_len();
                        let rest = p.substring_char(2, n);
                        return join_path(h, rest);
                    }
                    path.clone()
                },
                None => path.clone(),
            }
        },
        None => match home {
            Some(h) => join_path(join_path(h, ".dopper").as_str(), "dump.json"),
            None => to_owned_string(".dopper/dump.json"),
        },
    }
}

impl Config {
    /// The dump file for this configuration, with the home directory of the
    /// current user.
    pub fn get_dump_path(&self) -> (r: String)
        ensures
            exists|home: Option<Seq<char>>| r@ == #[trigger] spec_dump_path(self@, home),
    {
        get_dump_path(self)
    }
}

/// The dump file for `config`, with the home directory of the current user.
pub fn get_dump_path(config: &Config) -> (r: String)
    ensures
        exists|home: Option<Seq<char>>| r@ == #[trigger] spec_dump_path(config@, home),
{
    let home = home_dir();
    let r = match &home {
        Some(h) => dump_path_for(config, Some(h.as_str())),
        None => dump_path_for(config, None),
    };
    proof {
        let hv: Option<Seq<char>> = match home {
            Some(h) => Some(h@),
            None => None,
        };
        assert(r@ == spec_dump_path(config@, hv));
    }
    r
}

} // verus!
