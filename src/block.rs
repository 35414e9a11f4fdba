use vstd::prelude::*;
use vstd::slice::slice_to_vec;

verus! {

/// A record built by `Builder`: it exists only once a connection was given.
pub struct Block {
    pub name: String,
    pub data: Vec<u8>,
    pub flags: u64,
    pub connection: String,
}

/// Staging area for a `Block`: every field but the connection has a default.
pub struct Builder {
    pub name: String,
    pub data: Vec<u8>,
    pub flags: u64,
    pub connection: Option<String>,
}

/// The abstract content of a `Block`.
pub struct BlockView {
    pub name: Seq<char>,
    pub data: Seq<u8>,
    pub flags: u64,
    pub connection: Seq<char>,
}

/// The abstract content of a `Builder`.
pub struct BuilderView {
    pub name: Seq<char>,
    pub data: Seq<u8>,
    pub flags: u64,
    pub connection: Option<Seq<char>>,
}

/// One call of a setter of `Builder`, with the value it was given.
pub enum Assignment {
    Name(Seq<char>),
    Data(Seq<u8>),
    Flags(u64),
    Connection(Seq<char>),
}

impl View for Block {
    type V = BlockView;

    open spec fn view(&self) -> BlockView {
        BlockView {
            name: self.name@,
            data: self.data@,
            flags: self.flags,
            connection: self.connection@,
        }
    }
}

impl View for Builder {
    type V = BuilderView;

    open spec fn view(&self) -> BuilderView {
        BuilderView {
            name: self.name@,
            data: self.data@,
            flags: self.flags,
            connection: match self.connection {
                Some(c) => Some(c@),
                None => None,
            },
        }
    }
}

/// A fresh builder: empty name and data, no flags, no connection.
pub open spec fn empty_builder() -> BuilderView {
    BuilderView { name: Seq::empty(), data: Seq::empty(), flags: 0, connection: None }
}

/// The builder after one setter call.
pub open spec fn assign(b: BuilderView, a: Assignment) -> BuilderView {
    match a {
        Assignment::Name(n) => BuilderView { name: n, ..b },
        Assignment::Data(d) => BuilderView { data: d, ..b },
        Assignment::Flags(f) => BuilderView { flags: f, ..b },
        Assignment::Connection(c) => BuilderView { connection: Some(c), ..b },
    }
}

/// The builder after a sequence of setter calls, in order.
pub open spec fn assign_all(b: BuilderView, ops: Seq<Assignment>) -> BuilderView
    decreases ops.len(),
{
    if ops.len() == 0 {
        b
    } else {
        assign(assign_all(b, ops.drop_last()), ops.last())
    }
}

/// The value given to the last connection setter among `ops`, if any.
pub open spec fn last_connection(ops: Seq<Assignment>) -> Option<Seq<char>>
    decreases ops.len(),
{
    if ops.len() == 0 {
        None
    } else {
        match ops.last() {
            Assignment::Connection(c) => Some(c),
            _ => last_connection(ops.drop_last()),
        }
    }
}

/// What finalizing a builder yields: a block exactly when a connection is set.
pub open spec fn build_of(b: BuilderView) -> Option<BlockView> {
    match b.connection {
        Some(c) => Some(BlockView { name: b.name, data: b.data, flags: b.flags, connection: c }),
        None => None,
    }
}

impl Block {
    pub fn builder() -> (r: Builder)
        ensures
            r@ == empty_builder(),
    {
        Builder::default()
    }
}

impl Default for Builder {
    fn default() -> (r: Builder)
        ensures
            r@ == empty_builder(),
    {
        Builder { name: String::new(), data: Vec::new(), flags: 0, connection: None }
    }
}

impl Builder {
    pub fn name(self, name: &str) -> (r: Builder)
        ensures
            r@ == assign(self@, Assignment::Name(name@)),
    {
        Builder { name: name.to_owned(), ..self }
    }

    pub fn data(self, data: &[u8]) -> (r: Builder)
        ensures
            r@ == assign(self@, Assignment::Data(data@)),
    {
        Builder { data: slice_to_vec(data), ..self }
    }

    pub fn flags(self, flags: u64) -> (r: Builder)
        ensures
            r@ == assign(self@, Assignment::Flags(flags)),
    {
        Builder { flags, ..self }
    }

    pub fn connection(self, conn: &str) -> (r: Builder)
        ensures
            r@ == assign(self@, Assignment::Connection(conn@)),
    {
        Builder { connection: Some(conn.to_owned()), ..self }
    }

    pub fn build(self) -> (r: Option<Block>)
        ensures
            r is Some <==> self.connection is Some,
            r matches Some(block) ==> build_of(self@) == Some(block@),
    {
        match self.connection {
            Some(connection) => Some(
                Block { name: self.name, data: self.data, flags: self.flags, connection },
            ),
            None => None,
        }
    }
}

/// After any sequence of setter calls on a fresh builder, the connection that
/// is set is the one given by the last connection setter.
proof fn lemma_connection_is_last(ops: Seq<Assignment>)
    ensures
        assign_all(empty_builder(), ops).connection == last_connection(ops),
    decreases ops.len(),
{
    if ops.len() > 0 {
        lemma_connection_is_last(ops.drop_last());
    }
}

/// Setter calls that never set a connection leave a fresh builder unable to
/// build: finalizing yields nothing.
pub proof fn lemma_no_connection_no_block(ops: Seq<Assignment>)
    requires
        forall|i: int| 0 <= i < ops.len() ==> !(#[trigger] ops[i] is Connection),
    ensures
        build_of(assign_all(empty_builder(), ops)) is None,
{
    lemma_connection_is_last(ops);
    lemma_no_connection_is_none(ops);
}

proof fn lemma_no_connection_is_none(ops: Seq<Assignment>)
    requires
        forall|i: int| 0 <= i < ops.len() ==> !(#[trigger] ops[i] is Connection),
    ensures
        last_connection(ops) is None,
    decreases ops.len(),
{
    if ops.len() > 0 {
        let rest = ops.drop_last();
        assert forall|i: int| 0 <= i < rest.len() implies !(#[trigger] rest[i] is Connection) by {
            assert(rest[i] == ops[i]);
        }
        assert(!(ops[ops.len() - 1] is Connection));
        lemma_no_connection_is_none(rest);
    }
}

proof fn lemma_some_connection_is_some(ops: Seq<Assignment>, k: int)
    requires
        0 <= k < ops.len(),
        ops[k] is Connection,
    ensures
        last_connection(ops) is Some,
    decreases ops.len(),
{
    if k < ops.len() - 1 {
        let rest = ops.drop_last();
        assert(rest[k] == ops[k]);
        lemma_some_connection_is_some(rest, k);
    }
}

/// Setter calls that set a connection at least once let a fresh builder
/// build, and the block carries the connection given last and the other
/// fields as they were last set.
pub proof fn lemma_connection_gives_block(ops: Seq<Assignment>, k: int)
    requires
        0 <= k < ops.len(),
        ops[k] is Connection,
    ensures
        build_of(assign_all(empty_builder(), ops)) matches Some(block)
            && last_connection(ops) == Some(block.connection)
            && block.name == assign_all(empty_builder(), ops).name
            && block.data == assign_all(empty_builder(), ops).data
            && block.flags == assign_all(empty_builder(), ops).flags,
{
    lemma_connection_is_last(ops);
    lemma_some_connection_is_some(ops, k);
}

} // verus!
