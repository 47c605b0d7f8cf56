use vstd::prelude::*;
use vstd::utf8::encode_utf8;

verus! {

pub const QUOTE: u8 = 39;

pub const BACKSLASH: u8 = 92;

pub const COMMA: u8 = 44;

pub const SPACE: u8 = 32;

pub const CLOSE_PAREN: u8 = 41;

/// The four tables of the sink, one per observation kind.
#[derive(Clone, Copy, Debug, PartialEq, Eq, Structural)]
pub enum Table {
    Price,
    Bids,
    Asks,
    Trades,
}

impl Table {
    /// The number of columns of the table.
    pub open spec fn arity(self) -> nat {
        match self {
            Table::Price => 2,
            Table::Bids => 3,
            Table::Asks => 3,
            Table::Trades => 4,
        }
    }

    /// Everything of an insert command into this table up to its first value.
    pub open spec fn spec_header(self) -> Seq<char> {
        match self {
            Table::Price => "INSERT INTO btc_price (timestamp, price) VALUES ("@,
            Table::Bids => "INSERT INTO btc_bids (timestamp, price, quantity) VALUES ("@,
            Table::Asks => "INSERT INTO btc_asks (timestamp, price, quantity) VALUES ("@,
            Table::Trades => "INSERT INTO btc_trades (timestamp, id, price, amount) VALUES ("@,
        }
    }

    pub fn header(&self) -> (r: &'static str)
        ensures
            r@ == self.spec_header(),
    {
        match self {
            Table::Price => "INSERT INTO btc_price (timestamp, price) VALUES (",
            Table::Bids => "INSERT INTO btc_bids (timestamp, price, quantity) VALUES (",
            Table::Asks => "INSERT INTO btc_asks (timestamp, price, quantity) VALUES (",
            Table::Trades => "INSERT INTO btc_trades (timestamp, id, price, amount) VALUES (",
        }
    }
}

/// One row for the sink: a table and its column values, already rendered as text.
pub struct Row {
    pub table: Table,
    pub values: Vec<Vec<u8>>,
}

/// What a row is: its table and the bytes of each column value.
pub struct RowView {
    pub table: Table,
    pub values: Seq<Seq<u8>>,
}

impl View for Row {
    type V = RowView;

    open spec fn view(&self) -> RowView {
        RowView { table: self.table, values: self.values.deep_view() }
    }
}

impl Row {
    /// A row holds exactly one value per column of its table.
    pub open spec fn wf(&self) -> bool {
        self.values@.len() == self.table.arity()
    }

    /// A row of `table` with `values`, or `None` where their number is not the table's.
    pub fn new(table: Table, values: Vec<Vec<u8>>) -> (r: Option<Row>)
        ensures
            r matches Some(row) ==> row.wf() && row@ == (RowView { table, values: values.deep_view() }),
            r is None <==> values@.len() != table.arity(),
    {
        let n: usize = match table {
            Table::Price => 2,
            Table::Bids => 3,
            Table::Asks => 3,
            Table::Trades => 4,
        };
        if values.len() == n {
            Some(Row { table, values })
        } else {
            None
        }
    }
}

/// How one byte of a value is written inside a quoted literal: backslash and
/// quote are escaped by a backslash, and so are the control bytes newline,
/// carriage return, tab and NUL, as `\n`, `\r`, `\t` and `\0`.
pub open spec fn escape_byte(b: u8) -> Seq<u8> {
    if b == BACKSLASH {
        seq![BACKSLASH, BACKSLASH]
    } else if b == QUOTE {
        seq![BACKSLASH, QUOTE]
    } else if b == 10 {
        seq![BACKSLASH, 110u8]
    } else if b == 13 {
        seq![BACKSLASH, 114u8]
    } else if b == 9 {
        seq![BACKSLASH, 116u8]
    } else if b == 0 {
        seq![BACKSLASH, 48u8]
    } else {
        seq![b]
    }
}

/// The escaped form of a whole value.
pub open spec fn escaped(v: Seq<u8>) -> Seq<u8>
    decreases v.len(),
{
    if v.len() == 0 {
        seq![]
    } else {
        escaped(v.drop_last()) + escape_byte(v.last())
    }
}

/// A value between quotes.
pub open spec fn quoted(v: Seq<u8>) -> Seq<u8> {
    seq![QUOTE] + escaped(v) + seq![QUOTE]
}

/// Quoted values separated by `, `.
pub open spec fn joined(vs: Seq<Seq<u8>>) -> Seq<u8>
    decreases vs.len(),
{
    if vs.len() == 0 {
        seq![]
    } else if vs.len() == 1 {
        quoted(vs[0])
    } else {
        joined(vs.drop_last()) + seq![COMMA, SPACE] + quoted(vs.last())
    }
}

/// The insert command of a row: header, quoted values, closing parenthesis.
pub open spec fn insert_command(table: Table, vs: Seq<Seq<u8>>) -> Seq<u8> {
    encode_utf8(table.spec_header()) + joined(vs) + seq![CLOSE_PAREN]
}

/// The byte that an escape sequence `\c` stands for, as the sink reads it.
pub open spec fn unescape_byte(c: u8) -> u8 {
    if c == 110 {
        10
    } else if c == 114 {
        13
    } else if c == 116 {
        9
    } else if c == 48 {
        0
    } else {
        c
    }
}

/// How the sink reads a quoted literal, from the byte after its opening quote:
/// the value it stands for, and how many bytes it takes up to and including
/// its closing quote; `None` where the literal is not closed.
pub open spec fn read_literal(t: Seq<u8>) -> Option<(Seq<u8>, nat)>
    decreases t.len(),
{
    if t.len() == 0 {
        None
    } else if t[0] == QUOTE {
        Some((seq![], 1nat))
    } else if t[0] == BACKSLASH {
        if t.len() < 2 {
            None
        } else {
            match read_literal(t.subrange(2, t.len() as int)) {
                Some((d, n)) => Some((seq![unescape_byte(t[1])] + d, n + 2)),
                None => None,
            }
        }
    } else {
        match read_literal(t.drop_first()) {
            Some((d, n)) => Some((seq![t[0]] + d, n + 1)),
            None => None,
        }
    }
}

/// How the sink reads a list of `k` quoted values separated by `, ` and closed by `)`.
pub open spec fn read_values(t: Seq<u8>, k: nat) -> Option<Seq<Seq<u8>>>
    decreases k,
{
    if k == 0 || t.len() == 0 || t[0] != QUOTE {
        None
    } else {
        match read_literal(t.drop_first()) {
            None => None,
            Some((v, n)) => {
                let rest = t.subrange(n + 1int, t.len() as int);
                if k == 1 {
                    if rest.len() > 0 && rest[0] == CLOSE_PAREN {
                        Some(seq![v])
                    } else {
                        None
                    }
                } else if rest.len() >= 2 && rest[0] == COMMA && rest[1] == SPACE {
                    match read_values(rest.subrange(2, rest.len() as int), (k - 1) as nat) {
                        Some(vs) => Some(seq![v] + vs),
                        None => None,
                    }
                } else {
                    None
                }
            }
        }
    }
}

proof fn lemma_escaped_concat(a: Seq<u8>, b: Seq<u8>)
    ensures
        escaped(a + b) == escaped(a) + escaped(b),
    decreases b.len(),
{
    if b.len() == 0 {
        assert(a + b =~= a);
        assert(escaped(a) + escaped(b) =~= escaped(a));
    } else {
        lemma_escaped_concat(a, b.drop_last());
        assert((a + b).drop_last() =~= a + b.drop_last());
        assert((a + b).last() == b.last());
        assert(escaped(a) + escaped(b) =~= escaped(a) + escaped(b.drop_last()) + escape_byte(b.last()));
    }
}

proof fn lemma_escaped_front(v: Seq<u8>)
    requires
        v.len() > 0,
    ensures
        escaped(v) == escape_byte(v[0]) + escaped(v.drop_first()),
{
    lemma_escaped_concat(seq![v[0]], v.drop_first());
    assert(seq![v[0]] + v.drop_first() =~= v);
    let one = seq![v[0]];
    assert(one.drop_last() =~= Seq::<u8>::empty());
    assert(escaped(one.drop_last()) == Seq::<u8>::empty());
    assert(escaped(one) =~= escape_byte(v[0]));
}

/// Escaping cannot end a literal early: read back by the sink, the quoted
/// literal of `v` ends exactly at its closing quote and stands for `v` itself,
/// whatever follows it.
pub proof fn lemma_literal_read_back(v: Seq<u8>, rest: Seq<u8>)
    ensures
        read_literal(escaped(v) + seq![QUOTE] + rest) == Some((v, (escaped(v).len() + 1) as nat)),
    decreases v.len(),
{
    let t = escaped(v) + seq![QUOTE] + rest;
    if v.len() == 0 {
        assert(t[0] == QUOTE);
        assert(v =~= Seq::<u8>::empty());
    } else {
        lemma_escaped_front(v);
        let tail = v.drop_first();
        lemma_literal_read_back(tail, rest);
        let e = escape_byte(v[0]);
        let t2 = escaped(tail) + seq![QUOTE] + rest;
        assert(t =~= e + t2);
        if e.len() == 2 {
            assert(t.subrange(2, t.len() as int) =~= t2);
            assert(t[0] == BACKSLASH);
            assert(unescape_byte(t[1]) == v[0]);
        } else {
            assert(t.drop_first() =~= t2);
            assert(t[0] == v[0]);
        }
        assert(seq![v[0]] + tail =~= v);
    }
}

proof fn lemma_joined_front(vs: Seq<Seq<u8>>)
    requires
        vs.len() >= 2,
    ensures
        joined(vs) == quoted(vs[0]) + seq![COMMA, SPACE] + joined(vs.drop_first()),
    decreases vs.len(),
{
    if vs.len() == 2 {
        assert(joined(vs.drop_last()) == quoted(vs[0]));
        assert(joined(vs.drop_first()) == quoted(vs[1]));
    } else {
        let head = vs.drop_last();
        let tail = vs.drop_first();
        lemma_joined_front(head);
        assert(head.drop_first() =~= tail.drop_last());
        assert(tail.last() == vs.last());
        assert(head[0] == vs[0]);
        assert(joined(tail) == joined(tail.drop_last()) + seq![COMMA, SPACE] + quoted(tail.last()));
        assert(joined(vs) == joined(head) + seq![COMMA, SPACE] + quoted(vs.last()));
        assert(joined(vs) =~= quoted(vs[0]) + seq![COMMA, SPACE] + joined(vs.drop_first()));
    }
}

/// The values of an insert command keep the statement's structure: the sink
/// reads back from the value list exactly the values of the row, in order,
/// whatever bytes they hold.
pub proof fn lemma_values_read_back(vs: Seq<Seq<u8>>, rest: Seq<u8>)
    requires
        vs.len() >= 1,
    ensures
        read_values(joined(vs) + seq![CLOSE_PAREN] + rest, vs.len()) == Some(vs),
    decreases vs.len(),
{
    let t = joined(vs) + seq![CLOSE_PAREN] + rest;
    let v = vs[0];
    if vs.len() == 1 {
        let after = seq![CLOSE_PAREN] + rest;
        lemma_literal_read_back(v, after);
        assert(t =~= seq![QUOTE] + (escaped(v) + seq![QUOTE] + after));
        assert(t.drop_first() =~= escaped(v) + seq![QUOTE] + after);
        assert(t.subrange(escaped(v).len() + 2int, t.len() as int) =~= after);
        assert(seq![v] =~= vs);
    } else {
        lemma_joined_front(vs);
        let more = joined(vs.drop_first()) + seq![CLOSE_PAREN] + rest;
        let after = seq![COMMA, SPACE] + more;
        lemma_literal_read_back(v, after);
        lemma_values_read_back(vs.drop_first(), rest);
        assert(t =~= seq![QUOTE] + (escaped(v) + seq![QUOTE] + after));
        assert(t.drop_first() =~= escaped(v) + seq![QUOTE] + after);
        let r = t.subrange(escaped(v).len() + 2int, t.len() as int);
        assert(r =~= after);
        assert(r.subrange(2, r.len() as int) =~= more);
        assert(seq![v] + vs.drop_first() =~= vs);
    }
}

/// An insert command of a row keeps the statement's structure whatever its
/// values hold: it is the table's header, then a value list from which the sink
/// reads back exactly the row's values, and nothing after it.
pub proof fn lemma_command_reads_back(table: Table, vs: Seq<Seq<u8>>)
    requires
        vs.len() == table.arity(),
    ensures
        ({
            let cmd = insert_command(table, vs);
            let h = encode_utf8(table.spec_header());
            &&& cmd.subrange(0, h.len() as int) == h
            &&& read_values(cmd.subrange(h.len() as int, cmd.len() as int), vs.len()) == Some(vs)
        }),
{
    let cmd = insert_command(table, vs);
    let h = encode_utf8(table.spec_header());
    lemma_values_read_back(vs, seq![]);
    assert(cmd.subrange(0, h.len() as int) =~= h);
    assert(cmd.subrange(h.len() as int, cmd.len() as int) =~= joined(vs) + seq![CLOSE_PAREN] + seq![]);
}

pub(crate) fn append_bytes(out: &mut Vec<u8>, s: &[u8])
    ensures
        final(out)@ == old(out)@ + s@,
{
    let mut i: usize = 0;
    while i < s.len()
        invariant
            0 <= i <= s@.len(),
            out@ == old(out)@ + s@.take(i as int),
        decreases s@.len() - i,
    {
        out.push(s[i]);
        i = i + 1;
        assert(out@ =~= old(out)@ + s@.take(i as int));
    }
    assert(s@.take(s@.len() as int) =~= s@);
}

/// Appends the escaped form of `v`.
pub fn escape_into(out: &mut Vec<u8>, v: &[u8])
    ensures
        final(out)@ == old(out)@ + escaped(v@),
{
    let mut i: usize = 0;
    while i < v.len()
        invariant
            0 <= i <= v@.len(),
            out@ == old(out)@ + escaped(v@.take(i as int)),
        decreases v@.len() - i,
    {
        let b = v[i];
        proof {
            assert(v@.take(i + 1).drop_last() =~= v@.take(i as int));
            assert(v@.take(i + 1).last() == b);
        }
        if b == BACKSLASH {
            out.push(BACKSLASH);
            out.push(BACKSLASH);
        } else if b == QUOTE {
            out.push(BACKSLASH);
            out.push(QUOTE);
        } else if b == 10 {
            out.push(BACKSLASH);
            out.push(110);
        } else if b == 13 {
            out.push(BACKSLASH);
            out.push(114);
        } else if b == 9 {
            out.push(BACKSLASH);
            out.push(116);
        } else if b == 0 {
            out.push(BACKSLASH);
            out.push(48);
        } else {
            out.push(b);
        }
        i = i + 1;
        assert(out@ =~= old(out)@ + escaped(v@.take(i as int)));
    }
    assert(v@.take(v@.len() as int) =~= v@);
}

/// The insert command that delivers `row` to the sink, every value quoted and escaped.
pub fn insert_command_of(row: &Row) -> (r: Vec<u8>)
    requires
        row.wf(),
    ensures
        r@ == insert_command(row.table, row@.values),
{
    let mut out: Vec<u8> = Vec::new();
    append_bytes(&mut out, row.table.header().as_bytes());
    let n = row.values.len();
    let mut i: usize = 0;
    while i < n
        invariant
            n == row.values@.len(),
            0 <= i <= n,
            out@ == encode_utf8(row.table.spec_header()) + joined(row@.values.take(i as int)),
        decreases n - i,
    {
        proof {
            let vs = row@.values;
            assert(vs.take(i + 1).drop_last() =~= vs.take(i as int));
            assert(vs.take(i + 1).last() == vs[i as int]);
            assert(vs[i as int] == row.values@[i as int]@);
        }
        if i > 0 {
            out.push(COMMA);
            out.push(SPACE);
        }
        out.push(QUOTE);
        escape_into(&mut out, row.values[i].as_slice());
        out.push(QUOTE);
        proof {
            let vs = row@.values;
            if i == 0 {
                assert(joined(vs.take(i as int)) =~= Seq::<u8>::empty());
            }
            assert(out@ =~= encode_utf8(row.table.spec_header()) + joined(vs.take(i + 1)));
        }
        i = i + 1;
    }
    out.push(CLOSE_PAREN);
    assert(row@.values.take(n as int) =~= row@.values);
    out
}

/// Why a row did not reach the sink.
#[derive(Clone, Debug, PartialEq, Eq)]
pub enum InsertError {
    /// The sink answered with a status outside 2xx, and this message.
    Rejected { status: u16, message: String },
    /// The command could not be delivered.
    Transport { message: String },
}

/// The outcome of one insert from the sink's answer: success iff the status is 2xx.
pub fn insert_outcome(status: u16, message: String) -> (r: Result<(), InsertError>)
    ensures
        200 <= status < 300 ==> r is Ok,
        !(200 <= status < 300) ==> r == Err::<(), InsertError>(
            InsertError::Rejected { status, message },
        ),
{
    if 200 <= status && status < 300 {
        Ok(())
    } else {
        Err(InsertError::Rejected { status, message })
    }
}

} // verus!
