use vstd::prelude::*;
use vstd::string::*;

use crate::codec::chars_of;
use crate::errors::{Error, ErrorKind};
use crate::text::text_range;

verus! {

/// The working directory that holds the settings, the catalog, the daemon's
/// configuration and the pidfiles.
#[derive(Debug)]
pub struct Dir {
    dir: String,
}

impl View for Dir {
    type V = Seq<char>;

    closed spec fn view(&self) -> Seq<char> {
        self.dir@
    }
}

/// `name` inside the directory `dir`.
pub open spec fn join(dir: Seq<char>, name: Seq<char>) -> Seq<char> {
    if dir.len() > 0 && dir.last() == '/' {
        dir + name
    } else {
        dir + seq!['/'] + name
    }
}

/// A path that starts with `~/` names a place in the home directory.
pub open spec fn in_home(path: Seq<char>) -> bool {
    path.len() >= 2 && path[0] == '~' && path[1] == '/'
}

/// The directory a path names: below `home` for `~/...`, the path itself
/// otherwise. Fails when the path is in the home directory and the home
/// directory is unknown.
pub open spec fn resolve(path: Seq<char>, home: Option<Seq<char>>) -> Result<Seq<char>, ErrorKind> {
    if in_home(path) {
        match home {
            Some(h) => Ok(join(h, path.subrange(2, path.len() as int))),
            None => Err(ErrorKind::InvalidPath),
        }
    } else {
        Ok(path)
    }
}

fn joined(dir: &str, name: &str) -> (r: String)
    ensures
        r@ == join(dir@, name@),
{
    let v = chars_of(dir);
    let mut s = dir.to_owned();
    if !(v.len() > 0 && v[v.len() - 1] == '/') {
        proof {
            reveal_strlit("/");
        }
        s.append("/");
    }
    s.append(name);
    s
}

impl Dir {
    /// The working directory that `path` names, `home` being the user's
    /// home directory when it is known.
    pub fn new(path: &str, home: Option<&str>) -> (r: Result<Dir, Error>)
        ensures
            match resolve(
                path@,
                match home {
                    Some(h) => Some(h@),
                    None => None,
                },
            ) {
                Ok(p) => r matches Ok(d) && d@ == p,
                Err(k) => r matches Err(e) && e.kind == k,
            },
    {
        let v = chars_of(path);
        if v.len() >= 2 && v[0] == '~' && v[1] == '/' {
            match home {
                Some(h) => {
                    let rest = text_range(path, 2, v.len());
                    Ok(Dir { dir: joined(h, rest.as_str()) })
                },
                None => Err(
                    Error::new(ErrorKind::InvalidPath, "the home directory is unknown".to_owned()),
                ),
            }
        } else {
            Ok(Dir { dir: path.to_owned() })
        }
    }

    /// The directory's path.
    pub fn path(&self) -> (r: &str)
        ensures
            r@ == self@,
    {
        self.dir.as_str()
    }

    /// The path of the file `name` in the directory.
    pub fn filepath(&self, name: &str) -> (r: String)
        ensures
            r@ == join(self@, name@),
    {
        joined(self.dir.as_str(), name)
    }

    /// Whether the directory is ready for use, given whether it exists and
    /// whether it holds any entry.
    pub fn available(&self, exists: bool, has_entries: bool) -> (r: Result<(), Error>)
        ensures
            r is Ok <==> exists && has_entries,
            r matches Err(e) ==> e.kind == ErrorKind::WorkdirUninitialized,
    {
        if !exists {
            return Err(
                Error::new(ErrorKind::WorkdirUninitialized, "the working directory does not exist".to_owned()),
            );
        }
        if !has_entries {
            return Err(
                Error::new(ErrorKind::WorkdirUninitialized, "the working directory is empty".to_owned()),
            );
        }
        Ok(())
    }
}

} // verus!
