//! The configuration: where the hosts file is, which names it shall hold,
//! which virtual machine is asked, and the address that was found last.

use crate::error::{IoError, IoErrorView};
use crate::hosts::{
    append_managed, clean_list, file_bytes, file_content, lines_of, managed_lines, read_lines,
    reconciled,
};
use crate::seqs::{filter_brings_nothing_in, filter_of_all};
use crate::text::same_text;
use faccess::PathExt;
use vstd::prelude::*;

verus! {

/// The path of the hosts file on Windows.
pub const DEFAULT_HOSTS_PATH: &'static str = "C:\\Windows\\System32\\drivers\\etc\\hosts";

/// The name that is used where none is given.
pub const DEFAULT_HOST: &'static str = "host.wsl.internal";

/// The sentence for a name that is empty.
pub const EMPTY_NAME: &'static str = "Can not add an empty domain.";

/// Whether `name` may be one of the names: whether it is not empty.
pub fn acceptable_name(name: &str) -> (r: bool)
    ensures
        r == (name@.len() > 0),
{
    !name.is_empty()
}

/// An optional text as an optional sequence of characters.
pub open spec fn optional_text(text: Option<String>) -> Option<Seq<char>> {
    match text {
        Some(t) => Some(t@),
        None => None,
    }
}

/// A copy of an optional text.
pub fn copy_optional(text: &Option<String>) -> (r: Option<String>)
    ensures
        optional_text(r) == optional_text(*text),
{
    match text {
        Some(t) => Some(t.clone()),
        None => None,
    }
}

/// A copy of a list of texts.
pub fn copy_texts(texts: &[String]) -> (r: Vec<String>)
    ensures
        r.deep_view() == texts.deep_view(),
{
    let mut r: Vec<String> = Vec::new();
    let mut i: usize = 0;
    while i < texts.len()
        invariant
            i <= texts.len(),
            r.len() == i,
            forall|j: int| 0 <= j < i ==> r@[j]@ == texts@[j]@,
        decreases texts.len() - i,
    {
        r.push(texts[i].clone());
        i += 1;
    }
    assert(r.deep_view() =~= texts.deep_view());
    r
}

/// What the user has configured, and what was found for it.
#[derive(Debug, PartialEq, Eq)]
pub struct Config {
    /// The path of the hosts file.
    pub hosts_path: String,
    /// The names that shall resolve to the virtual machine, each once.
    pub names: Vec<String>,
    /// The distribution to ask, or `None` for the default one.
    pub distro: Option<String>,
    /// The address that the last successful query gave.
    pub last_address: Option<String>,
}

/// A `Config` as plain mathematical values.
pub struct ConfigView {
    pub hosts_path: Seq<char>,
    pub names: Seq<Seq<char>>,
    pub distro: Option<Seq<char>>,
    pub last_address: Option<Seq<char>>,
}

impl View for Config {
    type V = ConfigView;

    open spec fn view(&self) -> ConfigView {
        ConfigView {
            hosts_path: self.hosts_path@,
            names: self.names.deep_view(),
            distro: optional_text(self.distro),
            last_address: optional_text(self.last_address),
        }
    }
}

/// No name is empty, and no name stands twice.
pub open spec fn valid_names(names: Seq<Seq<char>>) -> bool {
    &&& names.no_duplicates()
    &&& forall|i: int| 0 <= i < names.len() ==> (#[trigger] names[i]).len() > 0
}

impl ConfigView {
    /// A path is set, no name is empty, and no name stands twice.
    pub open spec fn wf(self) -> bool {
        &&& self.hosts_path.len() > 0
        &&& valid_names(self.names)
    }
}

/// The test that keeps a name when `name` is removed.
pub open spec fn differs_from(name: Seq<char>) -> spec_fn(Seq<char>) -> bool {
    |other: Seq<char>| other != name
}

/// What a look at a path found.
#[derive(Debug, PartialEq, Eq)]
pub struct Access {
    /// The path that was looked at.
    pub path: String,
    /// Whether the file there can be read.
    pub read: bool,
    /// Whether the file there can be written.
    pub write: bool,
}

/// An `Access` with its path as a sequence of characters.
pub struct AccessView {
    pub path: Seq<char>,
    pub read: bool,
    pub write: bool,
}

impl View for Access {
    type V = AccessView;

    open spec fn view(&self) -> AccessView {
        AccessView { path: self.path@, read: self.read, write: self.write }
    }
}

/// Asks `faccess::PathExt::readable` whether the file at `path` can be read.
///
/// Trusted: nothing is claimed of the answer, which depends on the file
/// system at the moment of the call.
#[verifier::external_body]
fn path_readable(path: &str) -> bool {
    std::path::Path::new(path).readable()
}

/// Asks `faccess::PathExt::writable` whether the file at `path` can be written.
///
/// Trusted: nothing is claimed of the answer, which depends on the file
/// system at the moment of the call.
#[verifier::external_body]
fn path_writable(path: &str) -> bool {
    std::path::Path::new(path).writable()
}

/// What reading a file gave, as plain values: its bytes, or the words of the failure.
pub open spec fn read_view(read: Result<Vec<u8>, String>) -> Result<Seq<u8>, Seq<char>> {
    match read {
        Ok(bytes) => Ok(bytes@),
        Err(cause) => Err(cause@),
    }
}

impl ConfigView {
    /// The lines of the hosts file, where it may be read, reading it
    /// succeeded, and what was read is text.
    pub open spec fn read_outcome(
        self,
        access: AccessView,
        read: Result<Seq<u8>, Seq<char>>,
    ) -> Result<Seq<Seq<char>>, IoErrorView> {
        if !access.read {
            Err(IoErrorView::NotReadable { path: self.hosts_path })
        } else {
            match read {
                Err(cause) => Err(IoErrorView::ReadFailed { path: self.hosts_path, cause }),
                Ok(bytes) => match lines_of(bytes) {
                    Ok(lines) => Ok(lines),
                    Err(cause) => Err(IoErrorView::ReadFailed { path: self.hosts_path, cause }),
                },
            }
        }
    }

    /// The lines that the hosts file would hold after a write, where it can be read.
    pub open spec fn preview_outcome(
        self,
        ip: Seq<char>,
        access: AccessView,
        read: Result<Seq<u8>, Seq<char>>,
    ) -> Result<Seq<Seq<char>>, IoErrorView> {
        match self.read_outcome(access, read) {
            Err(e) => Err(e),
            Ok(lines) => Ok(reconciled(lines, ip, self.names)),
        }
    }

    /// The bytes to write to the hosts file, where it may be written and can be read.
    pub open spec fn write_outcome(
        self,
        ip: Seq<char>,
        access: AccessView,
        read: Result<Seq<u8>, Seq<char>>,
    ) -> Result<Seq<u8>, IoErrorView> {
        if !access.write {
            Err(IoErrorView::NotWritable { path: self.hosts_path })
        } else {
            match self.preview_outcome(ip, access, read) {
                Err(e) => Err(e),
                Ok(lines) => Ok(file_bytes(lines)),
            }
        }
    }
}

impl ConfigView {
    /// The bytes of the hosts file after a write was tried on a file that
    /// held `bytes`: what was to be written, or `bytes` where the write was
    /// refused.
    pub open spec fn file_after(self, ip: Seq<char>, access: AccessView, bytes: Seq<u8>) -> Seq<u8> {
        match self.write_outcome(ip, access, Ok(bytes)) {
            Ok(written) => written,
            Err(_) => bytes,
        }
    }
}

impl Clone for Config {
    fn clone(&self) -> (copy: Config)
        ensures
            copy@ == self@,
    {
        Config {
            hosts_path: self.hosts_path.clone(),
            names: copy_texts(self.names.as_slice()),
            distro: copy_optional(&self.distro),
            last_address: copy_optional(&self.last_address),
        }
    }
}

impl Config {
    /// A configuration for the default hosts file, without names.
    pub fn new() -> (config: Config)
        ensures
            config@ == (ConfigView {
                hosts_path: DEFAULT_HOSTS_PATH@,
                names: Seq::empty(),
                distro: None,
                last_address: None,
            }),
            config@.wf(),
    {
        proof {
            reveal_strlit("C:\\Windows\\System32\\drivers\\etc\\hosts");
        }
        Config::with_hosts_path(DEFAULT_HOSTS_PATH)
    }

    /// A configuration for the hosts file at `path`, without names.
    pub fn with_hosts_path(path: &str) -> (config: Config)
        ensures
            config@ == (ConfigView {
                hosts_path: path@,
                names: Seq::empty(),
                distro: None,
                last_address: None,
            }),
            config@.wf() <==> path@.len() > 0,
    {
        let config = Config {
            hosts_path: path.to_owned(),
            names: Vec::new(),
            distro: None,
            last_address: None,
        };
        assert(config.names.deep_view() =~= Seq::<Seq<char>>::empty());
        config
    }

    /// Sets the path of the hosts file.
    pub fn set_hosts_path(&mut self, path: &str)
        ensures
            final(self)@ == (ConfigView { hosts_path: path@, ..old(self)@ }),
            old(self)@.wf() && path@.len() > 0 ==> final(self)@.wf(),
    {
        self.hosts_path = path.to_owned();
    }

    /// Looks at the hosts file and says whether it can be read and written.
    pub fn check_hosts_path(&self) -> (access: Access)
        ensures
            access.path@ == self.hosts_path@,
    {
        let read = path_readable(self.hosts_path.as_str());
        let write = path_writable(self.hosts_path.as_str());
        Access { path: self.hosts_path.clone(), read, write }
    }

    /// Replaces the names by `list`, as it is: with the empty names and the
    /// duplicates that it may hold.
    pub fn set_names(&mut self, list: Vec<String>)
        ensures
            final(self)@ == (ConfigView { names: list.deep_view(), ..old(self)@ }),
            old(self)@.wf() && valid_names(list.deep_view()) ==> final(self)@.wf(),
    {
        self.names = list;
    }

    /// Whether `name` is one of the names.
    pub fn has_name(&self, name: &str) -> (r: bool)
        ensures
            r == self@.names.contains(name@),
    {
        let mut i: usize = 0;
        while i < self.names.len()
            invariant
                i <= self.names.len(),
                forall|j: int| 0 <= j < i ==> self.names@[j]@ != name@,
            decreases self.names.len() - i,
        {
            if same_text(self.names[i].as_str(), name) {
                assert(self@.names[i as int] == name@);
                return true;
            }
            i += 1;
        }
        assert forall|j: int| 0 <= j < self@.names.len() implies self@.names[j] != name@ by {
            assert(self@.names[j] == self.names@[j]@);
        }
        false
    }

    /// Adds `name` to the names, at the end, unless it is one of them already.
    pub fn add_name(&mut self, name: String)
        ensures
            final(self)@ == (ConfigView {
                names: if old(self)@.names.contains(name@) {
                    old(self)@.names
                } else {
                    old(self)@.names.push(name@)
                },
                ..old(self)@
            }),
            old(self)@.names.contains(name@) ==> final(self)@ == old(self)@,
            old(self)@.wf() && name@.len() > 0 ==> final(self)@.wf(),
    {
        if !self.has_name(name.as_str()) {
            let ghost before = self.names.deep_view();
            self.names.push(name);
            assert(self.names.deep_view() =~= before.push(name@));
        }
    }

    /// Takes `name` out of the names, wherever it stands.
    pub fn remove_name(&mut self, name: String)
        ensures
            final(self)@ == (ConfigView {
                names: old(self)@.names.filter(differs_from(name@)),
                ..old(self)@
            }),
            !old(self)@.names.contains(name@) ==> final(self)@ == old(self)@,
            !final(self)@.names.contains(name@),
            old(self)@.wf() ==> final(self)@.wf(),
    {
        let mut kept: Vec<String> = Vec::new();
        let mut i: usize = 0;
        let ghost all = self.names.deep_view();
        proof {
            reveal(Seq::filter);
            assert(all.take(0) =~= Seq::<Seq<char>>::empty());
            assert(kept.deep_view() =~= Seq::<Seq<char>>::empty());
        }
        while i < self.names.len()
            invariant
                i <= self.names.len(),
                all == self.names.deep_view(),
                kept.deep_view() == all.take(i as int).filter(differs_from(name@)),
            decreases self.names.len() - i,
        {
            let ghost before = kept.deep_view();
            proof {
                assert(all.take(i + 1) =~= all.take(i as int).push(self.names@[i as int]@));
                all.take(i as int).lemma_filter_push(self.names@[i as int]@, differs_from(name@));
            }
            if !same_text(self.names[i].as_str(), name.as_str()) {
                kept.push(self.names[i].clone());
                assert(kept.deep_view() =~= before.push(self.names@[i as int]@));
            }
            i += 1;
        }
        proof {
            assert(all.take(i as int) =~= all);
            removal_keeps_the_rest(all, name@);
            let rest = all.filter(differs_from(name@));
            if old(self)@.wf() {
                assert forall|k: int| 0 <= k < rest.len() implies (#[trigger] rest[k]).len()
                    > 0 by {
                    assert(rest.contains(rest[k]));
                    let j = choose|j: int| 0 <= j < all.len() && all[j] == rest[k];
                }
            }
        }
        self.names = kept;
    }

    /// `lines`, then one managed line for each name, with the address `ip`.
    pub fn apply_names(&self, ip: &str, lines: &[String]) -> (all: Vec<String>)
        ensures
            all.deep_view() == lines.deep_view() + managed_lines(ip@, self@.names),
    {
        append_managed(lines, ip, self.names.as_slice())
    }

    /// The lines of the hosts file.
    ///
    /// `access` is what a look at the file found and `read` what reading it
    /// gave. The lines come back where the file may be read, was read, and
    /// holds text; a file that is not UTF-8 is refused as a whole and counts as
    /// not read, with the decoder's words as the cause.
    pub fn read_file(&self, access: &Access, read: &Result<Vec<u8>, String>) -> (r: Result<
        Vec<String>,
        IoError,
    >)
        ensures
            match self@.read_outcome(access@, read_view(*read)) {
                Ok(lines) => r matches Ok(l) && l.deep_view() == lines,
                Err(error) => r matches Err(e) && e@ == error,
            },
    {
        if !access.read {
            return Err(IoError::NotReadable { path: self.hosts_path.clone() });
        }
        match read {
            Err(cause) => Err(
                IoError::ReadFailed { path: self.hosts_path.clone(), cause: cause.clone() },
            ),
            Ok(bytes) => match read_lines(bytes.as_slice()) {
                Ok(lines) => Ok(lines),
                Err(cause) => Err(IoError::ReadFailed { path: self.hosts_path.clone(), cause }),
            },
        }
    }

    /// The lines that the hosts file would hold after a write with the address
    /// `ip`: its foreign lines, then one managed line for each name. Fails as
    /// `read_file` does.
    pub fn preview(&self, ip: &str, access: &Access, read: &Result<Vec<u8>, String>) -> (r:
        Result<Vec<String>, IoError>)
        ensures
            match self@.preview_outcome(ip@, access@, read_view(*read)) {
                Ok(lines) => r matches Ok(l) && l.deep_view() == lines,
                Err(error) => r matches Err(e) && e@ == error,
            },
    {
        match self.read_file(access, read) {
            Err(e) => Err(e),
            Ok(lines) => {
                let kept = clean_list(lines.as_slice());
                Ok(self.apply_names(ip, kept.as_slice()))
            },
        }
    }

    /// The bytes to write to the hosts file for the address `ip`: the lines of
    /// `preview`, each followed by a carriage return and a line feed. Fails,
    /// and nothing is to be written, where the file may not be written, and
    /// where `preview` fails: so a file that is not UTF-8 is never written.
    pub fn write_file(&self, ip: &str, access: &Access, read: &Result<Vec<u8>, String>) -> (r:
        Result<Vec<u8>, IoError>)
        ensures
            match self@.write_outcome(ip@, access@, read_view(*read)) {
                Ok(bytes) => r matches Ok(b) && b@ == bytes,
                Err(error) => r matches Err(e) && e@ == error,
            },
    {
        if !access.write {
            return Err(IoError::NotWritable { path: self.hosts_path.clone() });
        }
        match self.preview(ip, access, read) {
            Err(e) => Err(e),
            Ok(lines) => Ok(file_content(lines.as_slice())),
        }
    }
}

/// Removing `name` from a list leaves a list without `name`; it leaves the list
/// as it was where `name` was not in it, and it brings in neither a duplicate
/// nor a name that was not there.
pub proof fn removal_keeps_the_rest(names: Seq<Seq<char>>, name: Seq<char>)
    ensures
        !names.filter(differs_from(name)).contains(name),
        !names.contains(name) ==> names.filter(differs_from(name)) == names,
        names.no_duplicates() ==> names.filter(differs_from(name)).no_duplicates(),
        forall|x: Seq<char>| #[trigger]
            names.filter(differs_from(name)).contains(x) ==> names.contains(x),
{
    filter_brings_nothing_in(names, differs_from(name));
    if !names.contains(name) {
        filter_of_all(names, differs_from(name));
    }
}

} // verus!
