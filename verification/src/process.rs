//! Process records, as one snapshot of the process source gives them.

use vstd::prelude::*;
use vstd::string::*;

verus! {

/// What is known of the signature of an executable.
#[derive(Debug, PartialEq, Eq)]
pub struct SignatureInfo {
    pub is_signed: bool,
    pub is_valid: bool,
    pub issuer: Option<String>,
    pub subject: Option<String>,
}

/// One network connection of a process.
#[derive(Debug, PartialEq, Eq)]
pub struct NetworkConnection {
    pub local_port: u16,
    pub remote_address: Option<String>,
    pub remote_port: Option<u16>,
    pub protocol: String,
    pub state: String,
}

/// One process of a snapshot. The attributes that take a further system call for each
/// process (`path`, `hash`, the signature) are `None` where they could not be had.
#[derive(Debug, PartialEq, Eq)]
pub struct ProcessInfo {
    pub pid: u32,
    pub name: String,
    pub path: Option<String>,
    /// The command-line arguments, in order.
    pub command: Vec<String>,
    /// The SHA-256 digest of the executable, as hexadecimal text.
    pub hash: Option<String>,
    pub parent_pid: Option<u32>,
    /// The working set, in bytes.
    pub memory_usage: u64,
    /// The share of one processor in use, in thousandths.
    pub cpu_usage_milli: u32,
    pub status: String,
    pub digital_signature: Option<SignatureInfo>,
    pub network_connections: Vec<NetworkConnection>,
}

impl ProcessInfo {
    /// A record that holds a process identifier and a name, and nothing else yet.
    pub fn new(pid: u32, name: &str) -> (p: ProcessInfo)
        ensures
            p.pid == pid,
            p.name@ == name@,
            p.path is None,
            p.command@.len() == 0,
            p.hash is None,
            p.parent_pid is None,
            p.memory_usage == 0,
            p.cpu_usage_milli == 0,
            p.status@ == "Running"@,
            p.digital_signature is None,
            p.network_connections@.len() == 0,
    {
        ProcessInfo {
            pid,
            name: String::from_str(name),
            path: None,
            command: Vec::new(),
            hash: None,
            parent_pid: None,
            memory_usage: 0,
            cpu_usage_milli: 0,
            status: String::from_str("Running"),
            digital_signature: None,
            network_connections: Vec::new(),
        }
    }

    /// The command line: the arguments joined by single spaces.
    pub open spec fn command_line(self) -> Seq<char> {
        crate::text::spaced(self.command@)
    }
}

/// A copy of an optional string.
fn copy_opt(s: &Option<String>) -> (r: Option<String>)
    ensures
        r == *s,
{
    match s {
        Some(text) => Some(text.clone()),
        None => None,
    }
}

impl Clone for SignatureInfo {
    fn clone(&self) -> (r: Self)
        ensures
            r == *self,
    {
        SignatureInfo {
            is_signed: self.is_signed,
            is_valid: self.is_valid,
            issuer: copy_opt(&self.issuer),
            subject: copy_opt(&self.subject),
        }
    }
}

impl Clone for NetworkConnection {
    fn clone(&self) -> (r: Self)
        ensures
            r == *self,
    {
        NetworkConnection {
            local_port: self.local_port,
            remote_address: copy_opt(&self.remote_address),
            remote_port: self.remote_port,
            protocol: self.protocol.clone(),
            state: self.state.clone(),
        }
    }
}

/// Whether two records say the same of a process.
pub open spec fn same_record(a: ProcessInfo, b: ProcessInfo) -> bool {
    &&& a.pid == b.pid
    &&& a.name == b.name
    &&& a.path == b.path
    &&& a.command@ == b.command@
    &&& a.hash == b.hash
    &&& a.parent_pid == b.parent_pid
    &&& a.memory_usage == b.memory_usage
    &&& a.cpu_usage_milli == b.cpu_usage_milli
    &&& a.status == b.status
    &&& a.digital_signature == b.digital_signature
    &&& a.network_connections@ == b.network_connections@
}

impl Clone for ProcessInfo {
    fn clone(&self) -> (r: Self)
        ensures
            same_record(r, *self),
    {
        let mut command: Vec<String> = Vec::new();
        let mut i: usize = 0;
        while i < self.command.len()
            invariant
                i <= self.command.len(),
                command@ == self.command@.take(i as int),
            decreases self.command.len() - i,
        {
            command.push(self.command[i].clone());
            assert(self.command@.take(i + 1) == self.command@.take(i as int).push(
                self.command@[i as int],
            ));
            i += 1;
        }
        assert(self.command@.take(self.command.len() as int) == self.command@);
        let mut network_connections: Vec<NetworkConnection> = Vec::new();
        let mut j: usize = 0;
        while j < self.network_connections.len()
            invariant
                j <= self.network_connections.len(),
                network_connections@ == self.network_connections@.take(j as int),
            decreases self.network_connections.len() - j,
        {
            network_connections.push(self.network_connections[j].clone());
            assert(self.network_connections@.take(j + 1) == self.network_connections@.take(
                j as int,
            ).push(self.network_connections@[j as int]));
            j += 1;
        }
        assert(self.network_connections@.take(self.network_connections.len() as int)
            == self.network_connections@);
        ProcessInfo {
            pid: self.pid,
            name: self.name.clone(),
            path: copy_opt(&self.path),
            command,
            hash: copy_opt(&self.hash),
            parent_pid: self.parent_pid,
            memory_usage: self.memory_usage,
            cpu_usage_milli: self.cpu_usage_milli,
            status: self.status.clone(),
            digital_signature: match &self.digital_signature {
                Some(signature) => Some(signature.clone()),
                None => None,
            },
            network_connections,
        }
    }
}

/// The place of the first record of process `pid` in a snapshot.
pub open spec fn place_of(processes: Seq<ProcessInfo>, pid: u32) -> Option<int> {
    if exists|i: int| is_first_of(processes, pid, i) {
        Some(choose|i: int| is_first_of(processes, pid, i))
    } else {
        None
    }
}

/// Whether record `i` is the first one of process `pid`.
pub open spec fn is_first_of(processes: Seq<ProcessInfo>, pid: u32, i: int) -> bool {
    &&& 0 <= i < processes.len()
    &&& processes[i].pid == pid
    &&& forall|k: int| 0 <= k < i ==> (#[trigger] processes[k]).pid != pid
}

/// The first record of process `pid` in a snapshot.
pub fn find_by_pid(processes: &Vec<ProcessInfo>, pid: u32) -> (r: Option<usize>)
    ensures
        match r {
            Some(i) => place_of(processes@, pid) == Some(i as int) && is_first_of(
                processes@,
                pid,
                i as int,
            ),
            None => place_of(processes@, pid) is None && forall|k: int|
                0 <= k < processes@.len() ==> (#[trigger] processes@[k]).pid != pid,
        },
{
    let mut i: usize = 0;
    while i < processes.len()
        invariant
            i <= processes.len(),
            forall|k: int| 0 <= k < i ==> (#[trigger] processes@[k]).pid != pid,
        decreases processes.len() - i,
    {
        if processes[i].pid == pid {
            proof {
                assert(is_first_of(processes@, pid, i as int));
                let c = choose|c: int| is_first_of(processes@, pid, c);
                if c < i {
                    assert(processes@[c].pid != pid);
                }
                if i < c {
                    assert(processes@[i as int].pid != pid);
                }
            }
            return Some(i);
        }
        i += 1;
    }
    None
}

/// The processes whose parent is process `parent`, by their places in the snapshot, in
/// order.
pub open spec fn children_of(processes: Seq<ProcessInfo>, parent: u32) -> Seq<int>
    decreases processes.len(),
{
    if processes.len() == 0 {
        Seq::empty()
    } else if processes.last().parent_pid == Some(parent) {
        children_of(processes.drop_last(), parent).push(processes.len() - 1)
    } else {
        children_of(processes.drop_last(), parent)
    }
}

/// A process with the processes it started, and theirs.
#[derive(Debug, PartialEq, Eq)]
pub struct ProcessTree {
    pub root: ProcessInfo,
    pub children: Vec<ProcessTree>,
}

/// Whether a record stands for process `pid` of a snapshot: the like of its first
/// record there, or, where the snapshot has none, a record named `Unknown` that holds
/// nothing else.
pub open spec fn stands_for(root: ProcessInfo, processes: Seq<ProcessInfo>, pid: u32) -> bool {
    match place_of(processes, pid) {
        Some(i) => same_record(root, processes[i]),
        None => {
            &&& root.pid == pid
            &&& root.name@ == "Unknown"@
            &&& root.path is None
            &&& root.command@.len() == 0
            &&& root.hash is None
            &&& root.parent_pid is None
            &&& root.memory_usage == 0
            &&& root.cpu_usage_milli == 0
            &&& root.digital_signature is None
            &&& root.network_connections@.len() == 0
        },
    }
}

/// Whether a tree is that of process `pid` in a snapshot, followed `depth` levels down:
/// its root stands for the process, and its children are the trees of the processes
/// whose parent it is, in the order of the snapshot, one level less deep.
pub open spec fn is_tree_of(
    tree: ProcessTree,
    processes: Seq<ProcessInfo>,
    pid: u32,
    depth: nat,
) -> bool
    decreases depth,
{
    &&& tree.root.pid == pid
    &&& stands_for(tree.root, processes, pid)
    &&& if depth == 0 {
        tree.children@.len() == 0
    } else {
        let kids = children_of(processes, pid);
        &&& tree.children@.len() == kids.len()
        &&& forall|i: int|
            0 <= i < kids.len() ==> is_tree_of(
                #[trigger] tree.children@[i],
                processes,
                processes[kids[i]].pid,
                (depth - 1) as nat,
            )
    }
}

proof fn lemma_children_prefix(processes: Seq<ProcessInfo>, parent: u32, i: int)
    requires
        0 <= i < processes.len(),
    ensures
        children_of(processes.take(i + 1), parent) == if processes[i].parent_pid == Some(parent) {
            children_of(processes.take(i), parent).push(i)
        } else {
            children_of(processes.take(i), parent)
        },
{
    assert(processes.take(i + 1).drop_last() == processes.take(i));
    assert(processes.take(i + 1).last() == processes[i]);
}

impl ProcessTree {
    /// The tree of process `root_pid` in a snapshot, followed as many levels down as
    /// the snapshot has records, which is as deep as a hierarchy of its processes goes.
    pub fn build_tree(processes: &Vec<ProcessInfo>, root_pid: u32) -> (tree: ProcessTree)
        ensures
            is_tree_of(tree, processes@, root_pid, processes@.len()),
    {
        Self::build_to_depth(processes, root_pid, processes.len())
    }

    /// The tree of process `root_pid` in a snapshot, followed `depth` levels down.
    pub fn build_to_depth(processes: &Vec<ProcessInfo>, root_pid: u32, depth: usize) -> (tree:
        ProcessTree)
        ensures
            is_tree_of(tree, processes@, root_pid, depth as nat),
        decreases depth,
    {
        let root = match find_by_pid(processes, root_pid) {
            Some(i) => processes[i].clone(),
            None => {
                let mut unknown = ProcessInfo::new(root_pid, "Unknown");
                unknown.status = String::new();
                unknown
            },
        };
        let mut children: Vec<ProcessTree> = Vec::new();
        if depth > 0 {
            let mut i: usize = 0;
            assert(processes@.take(0).len() == 0);
            while i < processes.len()
                invariant
                    i <= processes.len(),
                    depth > 0,
                    children@.len() == children_of(processes@.take(i as int), root_pid).len(),
                    forall|k: int|
                        0 <= k < children@.len() ==> is_tree_of(
                            #[trigger] children@[k],
                            processes@,
                            processes@[children_of(processes@.take(i as int), root_pid)[k]].pid,
                            (depth - 1) as nat,
                        ),
                decreases processes.len() - i,
            {
                proof {
                    lemma_children_prefix(processes@, root_pid, i as int);
                }
                let is_child = match processes[i].parent_pid {
                    Some(parent) => parent == root_pid,
                    None => false,
                };
                if is_child {
                    let child = Self::build_to_depth(processes, processes[i].pid, depth - 1);
                    children.push(child);
                }
                i += 1;
            }
            assert(processes@.take(processes.len() as int) == processes@);
        }
        ProcessTree { root, children }
    }

    /// The process identifiers of the tree: that of the root, then those of each child
    /// tree in turn.
    pub open spec fn pids(self) -> Seq<u32>
        decreases self,
    {
        seq![self.root.pid] + forest_pids(self.children@, self.children@.len() as int)
    }

    /// The process identifiers of the tree, the root first.
    pub fn get_all_pids(&self) -> (pids: Vec<u32>)
        ensures
            pids@ == self.pids(),
        decreases self,
    {
        let mut pids: Vec<u32> = Vec::new();
        pids.push(self.root.pid);
        let mut i: usize = 0;
        while i < self.children.len()
            invariant
                i <= self.children.len(),
                pids@ == seq![self.root.pid] + forest_pids(self.children@, i as int),
            decreases self.children.len() - i,
        {
            let mut below = self.children[i].get_all_pids();
            pids.append(&mut below);
            i += 1;
        }
        pids
    }

    /// A record of process `pid` in the tree, where the tree holds one.
    pub fn find_process(&self, pid: u32) -> (found: Option<&ProcessInfo>)
        ensures
            match found {
                Some(p) => p.pid == pid && self.pids().contains(pid),
                None => !self.pids().contains(pid),
            },
        decreases self,
    {
        if self.root.pid == pid {
            assert(self.pids()[0] == pid);
            return Some(&self.root);
        }
        let mut i: usize = 0;
        while i < self.children.len()
            invariant
                i <= self.children.len(),
                self.root.pid != pid,
                !forest_pids(self.children@, i as int).contains(pid),
            decreases self.children.len() - i,
        {
            let below = self.children[i].find_process(pid);
            proof {
                lemma_contains_add(
                    forest_pids(self.children@, i as int),
                    self.children@[i as int].pids(),
                    pid,
                );
            }
            if below.is_some() {
                proof {
                    lemma_forest_grows(self.children@, i + 1, self.children@.len() as int, pid);
                    lemma_contains_add(
                        seq![self.root.pid],
                        forest_pids(self.children@, self.children@.len() as int),
                        pid,
                    );
                }
                return below;
            }
            i += 1;
        }
        proof {
            lemma_contains_add(
                seq![self.root.pid],
                forest_pids(self.children@, self.children@.len() as int),
                pid,
            );
        }
        None
    }
}

/// The process identifiers of the first `n` trees of a sequence, tree after tree.
pub open spec fn forest_pids(trees: Seq<ProcessTree>, n: int) -> Seq<u32>
    decreases trees, n,
{
    if n <= 0 || n > trees.len() {
        Seq::empty()
    } else {
        forest_pids(trees, n - 1) + trees[n - 1].pids()
    }
}

proof fn lemma_contains_add(a: Seq<u32>, b: Seq<u32>, x: u32)
    ensures
        (a + b).contains(x) <==> a.contains(x) || b.contains(x),
{
    let s = a + b;
    if s.contains(x) {
        let k = choose|k: int| 0 <= k < s.len() && s[k] == x;
        if k < a.len() {
            assert(a[k] == x);
        } else {
            assert(b[k - a.len()] == x);
        }
    }
    if a.contains(x) {
        let k = choose|k: int| 0 <= k < a.len() && a[k] == x;
        assert(s[k] == x);
    }
    if b.contains(x) {
        let k = choose|k: int| 0 <= k < b.len() && b[k] == x;
        assert(s[a.len() + k] == x);
    }
}

proof fn lemma_forest_grows(trees: Seq<ProcessTree>, from: int, to: int, x: u32)
    requires
        0 <= from <= to <= trees.len(),
        forest_pids(trees, from).contains(x),
    ensures
        forest_pids(trees, to).contains(x),
    decreases to - from,
{
    if from < to {
        lemma_forest_grows(trees, from, to - 1, x);
        lemma_contains_add(forest_pids(trees, to - 1), trees[to - 1].pids(), x);
    }
}

} // verus!
