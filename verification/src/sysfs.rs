//! A snapshot of the sysfs/procfs files the hardware layer reads.
//!
//! The caller fills a [`SysFs`] with the files, directory listings and links it
//! found; the layer's functions read only from it. A path that was not added
//! does not exist as far as the layer is concerned.

use vstd::prelude::*;
use crate::text::{
    append_str, chars_of, parse_i64_chars, parse_int, parse_u64_chars, parse_uint, push_char, slice_vec,
    split_ws, split_ws_vec, string_of, string_views, trim, trim_bounds, views,
};

verus! {

/// What a path holds.
#[derive(Debug)]
pub enum Node {
    /// A regular file with its contents, or `None` when it could not be read.
    File(Option<String>),
    /// A directory with the names of its entries, in listing order.
    Dir(Vec<String>),
    /// A symbolic link with the file name of its target.
    Link(String),
}

#[derive(Debug)]
pub struct Entry {
    pub path: String,
    pub node: Node,
}

/// The files, directories and links found on the machine.
#[derive(Debug)]
pub struct SysFs {
    pub entries: Vec<Entry>,
}

/// The first entry recorded for path `p`.
pub open spec fn find_entry(es: Seq<Entry>, p: Seq<char>) -> Option<Entry>
    decreases es.len(),
{
    if es.len() == 0 {
        None
    } else if es[0].path@ == p {
        Some(es[0])
    } else {
        find_entry(es.drop_first(), p)
    }
}

/// `Path::join`: an absolute `name` replaces `dir`; otherwise a separator is
/// put between them unless `dir` is empty or already ends with one.
pub open spec fn path_join(dir: Seq<char>, name: Seq<char>) -> Seq<char> {
    if name.len() > 0 && name[0] == '/' {
        name
    } else if dir.len() == 0 || dir.last() == '/' {
        dir + name
    } else {
        dir + seq!['/'] + name
    }
}

pub fn join(dir: &String, name: &str) -> (p: String)
    ensures
        p@ == path_join(dir@, name@),
{
    let nc = chars_of(name);
    if nc.len() > 0 && nc[0] == '/' {
        return String::from_str(name);
    }
    let dc = chars_of(dir.as_str());
    let mut p = dir.clone();
    if !(dc.len() == 0 || dc[dc.len() - 1] == '/') {
        push_char(&mut p, '/');
    }
    append_str(&mut p, name);
    p
}

pub open spec fn opt_view(o: Option<String>) -> Option<Seq<char>> {
    match o {
        Some(s) => Some(s@),
        None => None,
    }
}

/// The contents `sysfs::read_trim` reports: trimmed, and absent when empty.
pub open spec fn trim_value(raw: Seq<char>) -> Option<Seq<char>> {
    if trim(raw).len() > 0 {
        Some(trim(raw))
    } else {
        None
    }
}

/// `raw.trim()` as an owned string, or `None` when nothing is left.
pub fn trim_text(raw: &str) -> (r: Option<String>)
    ensures
        opt_view(r) == trim_value(raw@),
{
    let cs = chars_of(raw);
    let (a, b) = trim_bounds(&cs);
    if a == b {
        return None;
    }
    let t = slice_vec(&cs, a, b);
    Some(string_of(t.as_slice()))
}

/// What a path holds, as plain values.
pub enum NodeView {
    File(Option<Seq<char>>),
    Dir(Seq<Seq<char>>),
    Link(Seq<char>),
}

pub open spec fn node_view(n: Node) -> NodeView {
    match n {
        Node::File(c) => NodeView::File(opt_view(c)),
        Node::Dir(v) => NodeView::Dir(string_views(v@)),
        Node::Link(t) => NodeView::Link(t@),
    }
}

/// The last character of a joined path is that of the name joined on.
pub proof fn lemma_join_last(dir: Seq<char>, name: Seq<char>)
    requires
        name.len() > 0,
    ensures
        path_join(dir, name).len() > 0,
        path_join(dir, name).last() == name.last(),
{
}

impl SysFs {
    pub open spec fn node(&self, p: Seq<char>) -> Option<Node> {
        match find_entry(self.entries@, p) {
            Some(e) => Some(e.node),
            None => None,
        }
    }

    /// What `p` holds, as plain values.
    pub open spec fn view_at(&self, p: Seq<char>) -> Option<NodeView> {
        match self.node(p) {
            Some(n) => Some(node_view(n)),
            None => None,
        }
    }

    pub open spec fn spec_exists(&self, p: Seq<char>) -> bool {
        self.node(p) is Some
    }

    pub open spec fn spec_is_dir(&self, p: Seq<char>) -> bool {
        self.node(p) matches Some(Node::Dir(_))
    }

    pub open spec fn spec_is_file(&self, p: Seq<char>) -> bool {
        self.node(p) matches Some(Node::File(_))
    }

    /// The raw contents of a readable file.
    pub open spec fn raw(&self, p: Seq<char>) -> Option<Seq<char>> {
        match self.node(p) {
            Some(Node::File(Some(c))) => Some(c@),
            _ => None,
        }
    }

    /// `sysfs::read_trim`: trimmed contents, absent when unreadable or empty.
    pub open spec fn spec_read_trim(&self, p: Seq<char>) -> Option<Seq<char>> {
        match self.raw(p) {
            Some(c) => trim_value(c),
            None => None,
        }
    }

    /// `sysfs::read_u64`.
    pub open spec fn spec_read_u64(&self, p: Seq<char>) -> Option<u64> {
        match self.spec_read_trim(p) {
            Some(t) => match parse_uint(t, u64::MAX as nat) {
                Some(v) => Some(v as u64),
                None => None,
            },
            None => None,
        }
    }

    /// `sysfs::read_i64`.
    pub open spec fn spec_read_i64(&self, p: Seq<char>) -> Option<i64> {
        match self.spec_read_trim(p) {
            Some(t) => match parse_int(t) {
                Some(v) => if i64::MIN <= v && v <= i64::MAX {
                    Some(v as i64)
                } else {
                    None
                },
                None => None,
            },
            None => None,
        }
    }

    /// The white-space separated words of an attribute, empty when absent.
    pub open spec fn spec_words(&self, p: Seq<char>) -> Seq<Seq<char>> {
        match self.spec_read_trim(p) {
            Some(t) => split_ws(t),
            None => seq![],
        }
    }

    /// The names listed in a directory.
    pub open spec fn spec_list(&self, p: Seq<char>) -> Option<Seq<Seq<char>>> {
        match self.node(p) {
            Some(Node::Dir(v)) => Some(string_views(v@)),
            _ => None,
        }
    }

    /// The target file name of a link.
    pub open spec fn spec_link(&self, p: Seq<char>) -> Option<Seq<char>> {
        match self.node(p) {
            Some(Node::Link(t)) => Some(t@),
            _ => None,
        }
    }

    /// An empty snapshot.
    pub fn new() -> (fs: SysFs)
        ensures
            fs.entries@.len() == 0,
    {
        SysFs { entries: Vec::new() }
    }

    /// Records a file and its contents (`None` when it could not be read).
    pub fn add_file(&mut self, path: String, content: Option<String>)
        ensures
            final(self).entries@ == old(self).entries@.push(Entry { path, node: Node::File(content) }),
    {
        self.entries.push(Entry { path, node: Node::File(content) });
    }

    /// Records a directory and the names it lists.
    pub fn add_dir(&mut self, path: String, names: Vec<String>)
        ensures
            final(self).entries@ == old(self).entries@.push(Entry { path, node: Node::Dir(names) }),
    {
        self.entries.push(Entry { path, node: Node::Dir(names) });
    }

    /// Records a symbolic link and the file name of its target.
    pub fn add_link(&mut self, path: String, target_name: String)
        ensures
            final(self).entries@ == old(self).entries@.push(Entry { path, node: Node::Link(target_name) }),
    {
        self.entries.push(Entry { path, node: Node::Link(target_name) });
    }

    fn lookup(&self, p: &String) -> (r: Option<&Node>)
        ensures
            match r {
                Some(n) => self.node(p@) == Some(*n),
                None => self.node(p@) is None,
            },
    {
        let mut i: usize = 0;
        assert(self.entries@.skip(0) =~= self.entries@);
        while i < self.entries.len()
            invariant
                i <= self.entries@.len(),
                find_entry(self.entries@, p@) == find_entry(self.entries@.skip(i as int), p@),
            decreases self.entries@.len() - i,
        {
            let ghost rest = self.entries@.skip(i as int);
            assert(rest[0] == self.entries@[i as int]);
            if self.entries[i].path == *p {
                return Some(&self.entries[i].node);
            }
            assert(rest.drop_first() =~= self.entries@.skip(i + 1));
            i = i + 1;
        }
        None
    }

    /// `Path::exists`.
    pub fn path_exists(&self, p: &String) -> (b: bool)
        ensures
            b == self.spec_exists(p@),
    {
        self.lookup(p).is_some()
    }

    /// `Path::is_dir`.
    pub fn is_dir(&self, p: &String) -> (b: bool)
        ensures
            b == self.spec_is_dir(p@),
    {
        match self.lookup(p) {
            Some(Node::Dir(_)) => true,
            _ => false,
        }
    }

    /// `Path::is_file`.
    pub fn is_file(&self, p: &String) -> (b: bool)
        ensures
            b == self.spec_is_file(p@),
    {
        match self.lookup(p) {
            Some(Node::File(_)) => true,
            _ => false,
        }
    }

    /// `fs::read_to_string`: the whole contents of a readable file.
    pub fn read_raw(&self, p: &String) -> (r: Option<String>)
        ensures
            opt_view(r) == self.raw(p@),
    {
        match self.lookup(p) {
            Some(Node::File(Some(c))) => Some(c.clone()),
            _ => None,
        }
    }

    /// `sysfs::read_trim`.
    pub fn read_trim(&self, p: &String) -> (r: Option<String>)
        ensures
            opt_view(r) == self.spec_read_trim(p@),
    {
        match self.lookup(p) {
            Some(Node::File(Some(c))) => trim_text(c.as_str()),
            _ => None,
        }
    }

    /// `sysfs::read_u64`.
    pub fn read_u64(&self, p: &String) -> (r: Option<u64>)
        ensures
            r == self.spec_read_u64(p@),
    {
        match self.read_trim(p) {
            Some(t) => {
                let cs = chars_of(t.as_str());
                parse_u64_chars(&cs)
            },
            None => None,
        }
    }

    /// `sysfs::read_i64`.
    pub fn read_i64(&self, p: &String) -> (r: Option<i64>)
        ensures
            r == self.spec_read_i64(p@),
    {
        match self.read_trim(p) {
            Some(t) => {
                let cs = chars_of(t.as_str());
                parse_i64_chars(&cs)
            },
            None => None,
        }
    }

    /// The names listed in directory `p` (`fs::read_dir`).
    pub fn list(&self, p: &String) -> (r: Option<Vec<String>>)
        ensures
            match r {
                Some(v) => self.spec_list(p@) == Some(string_views(v@)),
                None => self.spec_list(p@) is None,
            },
    {
        match self.lookup(p) {
            Some(Node::Dir(names)) => {
                let mut out: Vec<String> = Vec::new();
                let mut i: usize = 0;
                while i < names.len()
                    invariant
                        i <= names@.len(),
                        out@ =~= names@.take(i as int),
                    decreases names@.len() - i,
                {
                    let c = names[i].clone();
                    out.push(c);
                    i = i + 1;
                    assert(out@ =~= names@.take(i as int));
                }
                assert(names@.take(names@.len() as int) =~= names@);
                Some(out)
            },
            _ => None,
        }
    }

    /// The white-space separated words of an attribute, empty when it is absent.
    pub fn words(&self, path: &String) -> (v: Vec<String>)
        ensures
            string_views(v@) == self.spec_words(path@),
    {
        match self.read_trim(path) {
            Some(t) => {
                let cs = chars_of(t.as_str());
                let parts = split_ws_vec(&cs);
                let mut out: Vec<String> = Vec::new();
                let mut i: usize = 0;
                while i < parts.len()
                    invariant
                        i <= parts@.len(),
                        out@.len() == i,
                        forall|k: int| 0 <= k < i ==> (#[trigger] out@[k])@ == parts@[k]@,
                    decreases parts@.len() - i,
                {
                    let w = string_of(parts[i].as_slice());
                    out.push(w);
                    i = i + 1;
                }
                assert(string_views(out@) =~= views(parts@));
                out
            },
            None => {
                let out: Vec<String> = Vec::new();
                assert(string_views(out@) =~= seq![]);
                out
            },
        }
    }

    /// The target file name of link `p` (`fs::read_link` + `file_name`).
    pub fn link_name(&self, p: &String) -> (r: Option<String>)
        ensures
            opt_view(r) == self.spec_link(p@),
    {
        match self.lookup(p) {
            Some(Node::Link(t)) => Some(t.clone()),
            _ => None,
        }
    }
}

} // verus!
