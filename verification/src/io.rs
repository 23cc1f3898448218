use vstd::prelude::*;
use crate::table::Table;

verus! {

/// What a program asked of its surroundings, in the order it asked.
pub enum IoEvent {
    /// A message was printed.
    Print(Seq<char>),
    /// A line was asked for with a prompt, and this came back.
    Input(Seq<char>, Result<Seq<char>, Seq<char>>),
    /// The source of a module was asked for by file name, and this came back
    /// (an error carries the path that was looked for).
    Module(Seq<char>, Result<Seq<char>, Seq<char>>),
}

/// The characters of a string result.
pub open spec fn res_view(r: Result<String, String>) -> Result<Seq<char>, Seq<char>> {
    match r {
        Ok(s) => Ok(s@),
        Err(e) => Err(e@),
    }
}

/// The surroundings of a running program: where it prints, where its input
/// comes from and where the modules it uses are read from.
pub trait DrScriptIo {
    /// Shows a message.
    fn print(&mut self, message: &str);

    /// Shows the prompt and reads a line.
    fn input(&mut self, prompt: &str) -> Result<String, String>;

    /// The source of the module file `name`, or the path that was looked for.
    fn read_module(&mut self, name: &str) -> Result<String, String>;
}

/// Surroundings held in memory: printed text is collected, input lines are
/// handed out in order, modules are looked up by file name.
pub struct IoBuffer {
    output: String,
    inputs: Vec<String>,
    next_input: usize,
    modules: Table<String>,
}

/// The characters of each string in a list.
pub open spec fn lines_view(v: Seq<String>) -> Seq<Seq<char>> {
    Seq::new(v.len(), |i: int| v[i]@)
}

impl IoBuffer {
    /// Everything printed so far.
    pub closed spec fn printed(&self) -> Seq<char> {
        self.output@
    }

    /// The input lines not handed out yet, in order.
    pub closed spec fn inputs_left(&self) -> Seq<Seq<char>> {
        if self.next_input <= self.inputs@.len() {
            lines_view(self.inputs@.subrange(self.next_input as int, self.inputs@.len() as int))
        } else {
            Seq::empty()
        }
    }

    /// The source of each module file.
    pub closed spec fn module_sources(&self) -> Map<Seq<char>, Seq<char>> {
        self.modules@.map_values(|c: String| c@)
    }

    /// Surroundings with the given input lines, no modules and nothing printed.
    pub fn new(inputs: Vec<String>) -> (r: Self)
        ensures
            r.printed() == Seq::<char>::empty(),
            r.inputs_left() == lines_view(inputs@),
            r.module_sources() == Map::<Seq<char>, Seq<char>>::empty(),
    {
        let r = IoBuffer { output: String::new(), inputs, next_input: 0, modules: Table::new() };
        assert(r.inputs@.subrange(0, r.inputs@.len() as int) =~= r.inputs@);
        assert(r.module_sources() =~= Map::<Seq<char>, Seq<char>>::empty());
        r
    }

    /// Makes `code` the source of the module file `name`.
    pub fn add_module(&mut self, name: String, code: String)
        ensures
            final(self).printed() == old(self).printed(),
            final(self).inputs_left() == old(self).inputs_left(),
            final(self).module_sources() == old(self).module_sources().insert(name@, code@),
    {
        let ghost m0 = self.modules@;
        let ghost k = name@;
        let ghost v = code@;
        self.modules.set(name, code);
        assert(self.module_sources() =~= m0.map_values(|c: String| c@).insert(k, v));
    }

    /// Everything printed so far.
    pub fn output(&self) -> (r: &String)
        ensures
            r@ == self.printed(),
    {
        &self.output
    }
}

impl DrScriptIo for IoBuffer {
    /// Adds the message to what was printed.
    fn print(&mut self, message: &str)
        ensures
            final(self).printed() == old(self).printed() + message@,
            final(self).inputs_left() == old(self).inputs_left(),
            final(self).module_sources() == old(self).module_sources(),
    {
        self.output.append(message);
    }

    /// Hands out the next input line, or fails with "no input left".
    fn input(&mut self, prompt: &str) -> (r: Result<String, String>)
        ensures
            final(self).printed() == old(self).printed(),
            final(self).module_sources() == old(self).module_sources(),
            old(self).inputs_left().len() > 0 ==> r is Ok && r->Ok_0@ == old(self).inputs_left()[0]
                && final(self).inputs_left() == old(self).inputs_left().drop_first(),
            old(self).inputs_left().len() == 0 ==> r is Err && r->Err_0@ == "no input left"@
                && final(self).inputs_left() == old(self).inputs_left(),
    {
        let ghost left = self.inputs_left();
        if self.next_input < self.inputs.len() {
            let line = self.inputs[self.next_input].clone();
            self.next_input = self.next_input + 1;
            assert(self.inputs_left() =~= left.drop_first());
            Ok(line)
        } else {
            Err(String::from_str("no input left"))
        }
    }

    /// The source of the module file `name`, or `name` itself when there is none.
    fn read_module(&mut self, name: &str) -> (r: Result<String, String>)
        ensures
            final(self).printed() == old(self).printed(),
            final(self).inputs_left() == old(self).inputs_left(),
            final(self).module_sources() == old(self).module_sources(),
            old(self).module_sources().contains_key(name@) ==> r is Ok && r->Ok_0@ == old(self).module_sources()[name@],
            !old(self).module_sources().contains_key(name@) ==> r is Err && r->Err_0@ == name@,
    {
        match self.modules.get(name) {
            Some(code) => Ok(code.clone()),
            None => Err(String::from_str(name)),
        }
    }
}

/// A value drawn from outside the program: a random number or a reading of the clock.
pub enum Draw {
    Random(i64),
    /// Milliseconds since the Unix epoch, or the message of the clock's error.
    Clock(Result<u128, Seq<char>>),
}

/// The surroundings of a run, with a record of what the run asked of them and
/// of the values it drew from outside.
pub struct Outside<I> {
    pub io: I,
    pub log: Ghost<Seq<IoEvent>>,
    pub draws: Ghost<Seq<Draw>>,
}

impl<I: DrScriptIo> Outside<I> {
    /// Prints the message, recording it.
    pub fn print(&mut self, message: &str)
        ensures
            final(self).log@ == old(self).log@.push(IoEvent::Print(message@)),
            final(self).draws@ == old(self).draws@,
    {
        self.io.print(message);
        self.log = Ghost(self.log@.push(IoEvent::Print(message@)));
    }

    /// Reads a line after the prompt, recording the prompt and what came back.
    pub fn input(&mut self, prompt: &str) -> (r: Result<String, String>)
        ensures
            final(self).log@ == old(self).log@.push(IoEvent::Input(prompt@, res_view(r))),
            final(self).draws@ == old(self).draws@,
    {
        let r = self.io.input(prompt);
        self.log = Ghost(self.log@.push(IoEvent::Input(prompt@, res_view(r))));
        r
    }

    /// Reads the source of the module file `name`, recording the name and what came back.
    pub fn read_module(&mut self, name: &str) -> (r: Result<String, String>)
        ensures
            final(self).log@ == old(self).log@.push(IoEvent::Module(name@, res_view(r))),
            final(self).draws@ == old(self).draws@,
    {
        let r = self.io.read_module(name);
        self.log = Ghost(self.log@.push(IoEvent::Module(name@, res_view(r))));
        r
    }
}

/// A whole history of a run, known ahead: the event at each index of the
/// log and the value at each index of the draws.
pub struct Trace {
    pub io: spec_fn(int) -> IoEvent,
    pub draws: spec_fn(int) -> Draw,
}

/// Where a run stands in a trace: how many events and draws it has used.
pub struct Cursor {
    pub io: int,
    pub draw: int,
}

/// Whether a trace agrees with the log and the draws recorded so far.
#[verifier::opaque]
pub open spec fn agrees<I: DrScriptIo>(tr: Trace, o: Outside<I>) -> bool {
    &&& forall|i: int| 0 <= i < o.log@.len() ==> (tr.io)(i) == #[trigger] o.log@[i]
    &&& forall|i: int| 0 <= i < o.draws@.len() ==> (tr.draws)(i) == #[trigger] o.draws@[i]
}

/// Whether the log and draws of `b` continue those of `a`.
#[verifier::opaque]
pub open spec fn extends<I: DrScriptIo>(a: Outside<I>, b: Outside<I>) -> bool {
    &&& a.log@.len() <= b.log@.len()
    &&& forall|i: int| 0 <= i < a.log@.len() ==> #[trigger] b.log@[i] == a.log@[i]
    &&& a.draws@.len() <= b.draws@.len()
    &&& forall|i: int| 0 <= i < a.draws@.len() ==> #[trigger] b.draws@[i] == a.draws@[i]
}

/// Where a run stands after what it has recorded.
pub open spec fn cursor<I: DrScriptIo>(o: Outside<I>) -> Cursor {
    Cursor { io: o.log@.len() as int, draw: o.draws@.len() as int }
}

pub proof fn lemma_agrees_prefix<I: DrScriptIo>(tr: Trace, a: Outside<I>, b: Outside<I>)
    requires
        extends(a, b),
        agrees(tr, b),
    ensures
        agrees(tr, a),
{
    reveal(agrees);
    reveal(extends);
    assert forall|i: int| 0 <= i < a.log@.len() implies (tr.io)(i) == #[trigger] a.log@[i] by {
        assert(b.log@[i] == a.log@[i]);
    }
    assert forall|i: int| 0 <= i < a.draws@.len() implies (tr.draws)(i) == #[trigger] a.draws@[i] by {
        assert(b.draws@[i] == a.draws@[i]);
    }
}

pub proof fn lemma_extends_trans<I: DrScriptIo>(a: Outside<I>, b: Outside<I>, c: Outside<I>)
    requires
        extends(a, b),
        extends(b, c),
    ensures
        extends(a, c),
{
    reveal(extends);
    assert forall|i: int| 0 <= i < a.log@.len() implies #[trigger] c.log@[i] == a.log@[i] by {
        assert(c.log@[i] == b.log@[i]);
    }
    assert forall|i: int| 0 <= i < a.draws@.len() implies #[trigger] c.draws@[i] == a.draws@[i] by {
        assert(c.draws@[i] == b.draws@[i]);
    }
}

pub proof fn lemma_extends_refl<I: DrScriptIo>(a: Outside<I>)
    ensures
        extends(a, a),
{
    reveal(extends);
}

/// An agreeing trace holds each recorded event at its index.
pub proof fn lemma_agrees_io<I: DrScriptIo>(tr: Trace, o: Outside<I>, i: int)
    requires
        agrees(tr, o),
        0 <= i < o.log@.len(),
    ensures
        (tr.io)(i) == o.log@[i],
{
    reveal(agrees);
}

/// An agreeing trace holds each recorded draw at its index.
pub proof fn lemma_agrees_draw<I: DrScriptIo>(tr: Trace, o: Outside<I>, i: int)
    requires
        agrees(tr, o),
        0 <= i < o.draws@.len(),
    ensures
        (tr.draws)(i) == o.draws@[i],
{
    reveal(agrees);
}

/// One more event in the log continues it.
pub proof fn lemma_push_extends<I: DrScriptIo>(a: Outside<I>, b: Outside<I>, ev: IoEvent)
    requires
        b.log@ == a.log@.push(ev),
        b.draws@ == a.draws@,
    ensures
        extends(a, b),
        b.log@[a.log@.len() as int] == ev,
{
    reveal(extends);
    assert forall|i: int| 0 <= i < a.log@.len() implies #[trigger] b.log@[i] == a.log@[i] by {
        assert(a.log@.push(ev)[i] == a.log@[i]);
    }
}

/// One more draw continues the draws.
pub proof fn lemma_draw_extends<I: DrScriptIo>(a: Outside<I>, b: Outside<I>, d: Draw)
    requires
        b.draws@ == a.draws@.push(d),
        b.log@ == a.log@,
    ensures
        extends(a, b),
        b.draws@[a.draws@.len() as int] == d,
{
    reveal(extends);
    assert forall|i: int| 0 <= i < a.draws@.len() implies #[trigger] b.draws@[i] == a.draws@[i] by {
        assert(a.draws@.push(d)[i] == a.draws@[i]);
    }
}

} // verus!
