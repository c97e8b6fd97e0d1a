use vstd::prelude::*;

verus! {

/// What a completed command does to the text it spans.
#[derive(Clone, Copy, Debug, PartialEq, Eq, Structural)]
pub enum Command {
    Yank,
    Delete,
    Change,
}

/// The mode to enter once the command's effect is applied.
#[derive(Clone, Copy, Debug, PartialEq, Eq, Structural)]
pub enum SetMode {
    Normal,
    Insert,
}

/// A scope qualifier that narrows what a motion acts upon.
#[derive(Clone, Copy, Debug, PartialEq, Eq, Structural)]
pub enum Modifier {
    InnerWord,
}

#[derive(Clone, Copy, Debug, PartialEq, Eq, Structural)]
pub enum Motion {
    PrevWordStart,
    NextWordEnd,
    PrevLongWordStart,
    NextLongWordEnd,
    LineStart,
    LineEnd,
    /// A word as a text object: it needs a scope qualifier.
    Word,
}

/// The qualifier that `m` cannot do without, if any.
pub open spec fn required_modifier(m: Motion) -> Option<Modifier> {
    match m {
        Motion::Word => Some(Modifier::InnerWord),
        _ => None,
    }
}

/// The partial command between input events. A completed command never
/// stays here: it is handed out and the state goes back to `Idle`.
pub enum PendingState {
    Idle,
    AwaitingMotion { operator: Command, count: Option<usize>, modifiers: Vec<Modifier> },
    AwaitingModifier {
        operator: Command,
        motion: Motion,
        count: Option<usize>,
        modifiers: Vec<Modifier>,
    },
}

/// One input symbol.
#[derive(Clone, Copy, Debug, PartialEq, Eq, Structural)]
pub enum Event {
    SetOperator(Command),
    AppendDigit(u8),
    SetMotion(Motion),
    AppendModifier(Modifier),
    SetMode(SetMode),
    Cancel,
}

/// A command whose operator and motion are both known.
pub struct ReadyCommand {
    pub operator: Command,
    pub motion: Motion,
    pub count: usize,
    pub modifiers: Vec<Modifier>,
    pub set_mode: Option<SetMode>,
}

/// The accumulator of one editing session.
pub struct EvilContext {
    pub state: PendingState,
    pub set_mode: Option<SetMode>,
}

pub ghost enum Pending {
    Idle,
    AwaitingMotion { operator: Command, count: Option<usize>, modifiers: Seq<Modifier> },
    AwaitingModifier {
        operator: Command,
        motion: Motion,
        count: Option<usize>,
        modifiers: Seq<Modifier>,
    },
}

pub ghost struct ContextModel {
    pub pending: Pending,
    pub set_mode: Option<SetMode>,
}

pub ghost struct ReadyModel {
    pub operator: Command,
    pub motion: Motion,
    pub count: usize,
    pub modifiers: Seq<Modifier>,
    pub set_mode: Option<SetMode>,
}

impl PendingState {
    pub open spec fn view(&self) -> Pending {
        match self {
            PendingState::Idle => Pending::Idle,
            PendingState::AwaitingMotion { operator, count, modifiers } => Pending::AwaitingMotion {
                operator: *operator,
                count: *count,
                modifiers: modifiers@,
            },
            PendingState::AwaitingModifier { operator, motion, count, modifiers } =>
                Pending::AwaitingModifier {
                operator: *operator,
                motion: *motion,
                count: *count,
                modifiers: modifiers@,
            },
        }
    }
}

impl EvilContext {
    pub open spec fn view(&self) -> ContextModel {
        ContextModel { pending: self.state@, set_mode: self.set_mode }
    }
}

impl ReadyCommand {
    pub open spec fn view(&self) -> ReadyModel {
        ReadyModel {
            operator: self.operator,
            motion: self.motion,
            count: self.count,
            modifiers: self.modifiers@,
            set_mode: self.set_mode,
        }
    }
}

pub open spec fn ready_view(r: Option<ReadyCommand>) -> Option<ReadyModel> {
    match r {
        Some(c) => Some(c@),
        None => None,
    }
}

/// A count, where there is one, is positive.
pub open spec fn count_positive(count: Option<usize>) -> bool {
    match count {
        Some(c) => c >= 1,
        None => true,
    }
}

impl ContextModel {
    /// The accumulator's invariant: no count of zero is ever pending.
    pub open spec fn wf(self) -> bool {
        match self.pending {
            Pending::Idle => true,
            Pending::AwaitingMotion { count, .. } => count_positive(count),
            Pending::AwaitingModifier { count, .. } => count_positive(count),
        }
    }
}

/// The empty accumulator: no operator, nothing pending.
pub open spec fn idle() -> ContextModel {
    ContextModel { pending: Pending::Idle, set_mode: None }
}

/// The count after the decimal digit `d`: a leading zero starts nothing, and
/// a count too large for `usize` stays at its maximum.
pub open spec fn count_after_digit(count: Option<usize>, d: u8) -> Option<usize> {
    match count {
        None => if d == 0 { None } else { Some(d as usize) },
        Some(c) => Some(
            if c * 10 + d <= usize::MAX { (c * 10 + d) as usize } else { usize::MAX },
        ),
    }
}

/// Qualifiers form an ordered set: one already there is not added again.
pub open spec fn with_modifier(mods: Seq<Modifier>, q: Modifier) -> Seq<Modifier> {
    if mods.contains(q) { mods } else { mods.push(q) }
}

pub open spec fn satisfied(m: Motion, mods: Seq<Modifier>) -> bool {
    match required_modifier(m) {
        Some(q) => mods.contains(q),
        None => true,
    }
}

pub open spec fn ready(
    operator: Command,
    motion: Motion,
    count: Option<usize>,
    mods: Seq<Modifier>,
    set_mode: Option<SetMode>,
) -> ReadyModel {
    ReadyModel {
        operator,
        motion,
        count: match count { Some(c) => c, None => 1 },
        modifiers: mods,
        set_mode,
    }
}

/// One transition: the next accumulator, and the command completed by this
/// event, if any. An event that the current state does not take leaves it
/// as it is.
pub open spec fn step(m: ContextModel, e: Event) -> (ContextModel, Option<ReadyModel>) {
    let keep = (m, None::<ReadyModel>);
    match e {
        Event::Cancel => (idle(), None),
        Event::SetMode(md) => (ContextModel { set_mode: Some(md), ..m }, None),
        Event::SetOperator(op) => match m.pending {
            Pending::Idle => (
                ContextModel {
                    pending: Pending::AwaitingMotion {
                        operator: op,
                        count: None,
                        modifiers: Seq::empty(),
                    },
                    ..m
                },
                None,
            ),
            _ => keep,
        },
        Event::AppendDigit(d) => if d > 9 {
            keep
        } else {
            match m.pending {
                Pending::Idle => keep,
                Pending::AwaitingMotion { operator, count, modifiers } => (
                    ContextModel {
                        pending: Pending::AwaitingMotion {
                            operator,
                            count: count_after_digit(count, d),
                            modifiers,
                        },
                        ..m
                    },
                    None,
                ),
                Pending::AwaitingModifier { operator, motion, count, modifiers } => (
                    ContextModel {
                        pending: Pending::AwaitingModifier {
                            operator,
                            motion,
                            count: count_after_digit(count, d),
                            modifiers,
                        },
                        ..m
                    },
                    None,
                ),
            }
        },
        Event::SetMotion(mo) => match m.pending {
            Pending::AwaitingMotion { operator, count, modifiers } => if satisfied(mo, modifiers) {
                (idle(), Some(ready(operator, mo, count, modifiers, m.set_mode)))
            } else {
                (
                    ContextModel {
                        pending: Pending::AwaitingModifier { operator, motion: mo, count, modifiers },
                        ..m
                    },
                    None,
                )
            },
            _ => keep,
        },
        Event::AppendModifier(q) => match m.pending {
            Pending::Idle => keep,
            Pending::AwaitingMotion { operator, count, modifiers } => (
                ContextModel {
                    pending: Pending::AwaitingMotion {
                        operator,
                        count,
                        modifiers: with_modifier(modifiers, q),
                    },
                    ..m
                },
                None,
            ),
            Pending::AwaitingModifier { operator, motion, count, modifiers } => {
                let mods = with_modifier(modifiers, q);
                if satisfied(motion, mods) {
                    (idle(), Some(ready(operator, motion, count, mods, m.set_mode)))
                } else {
                    (
                        ContextModel {
                            pending: Pending::AwaitingModifier {
                                operator,
                                motion,
                                count,
                                modifiers: mods,
                            },
                            ..m
                        },
                        None,
                    )
                }
            },
        },
    }
}

impl Motion {
    pub fn required_modifier(&self) -> (r: Option<Modifier>)
        ensures
            r == required_modifier(*self),
    {
        match self {
            Motion::Word => Some(Modifier::InnerWord),
            _ => None,
        }
    }
}

fn contains_modifier(mods: &Vec<Modifier>, q: Modifier) -> (r: bool)
    ensures
        r == mods@.contains(q),
{
    let mut i: usize = 0;
    while i < mods.len()
        invariant
            i <= mods@.len(),
            forall|k: int| 0 <= k < i ==> mods@[k] != q,
        decreases mods@.len() - i,
    {
        if mods[i] == q {
            assert(mods@[i as int] == q);
            return true;
        }
        i += 1;
    }
    false
}

fn add_modifier(mods: &mut Vec<Modifier>, q: Modifier)
    ensures
        final(mods)@ == with_modifier(old(mods)@, q),
{
    if !contains_modifier(mods, q) {
        mods.push(q);
    }
}

fn is_satisfied(m: Motion, mods: &Vec<Modifier>) -> (r: bool)
    ensures
        r == satisfied(m, mods@),
{
    match m.required_modifier() {
        Some(q) => contains_modifier(mods, q),
        None => true,
    }
}

fn next_count(count: Option<usize>, d: u8) -> (r: Option<usize>)
    requires
        d <= 9,
    ensures
        r == count_after_digit(count, d),
{
    match count {
        None => if d == 0 {
            None
        } else {
            Some(d as usize)
        },
        Some(c) => {
            if c <= (usize::MAX - d as usize) / 10 {
                Some(c * 10 + d as usize)
            } else {
                Some(usize::MAX)
            }
        },
    }
}

impl EvilContext {
    pub fn new() -> (cx: EvilContext)
        ensures
            cx@ == idle(),
            cx@.wf(),
    {
        EvilContext { state: PendingState::Idle, set_mode: None }
    }

    /// Drops every partial field: back to `Idle`, with no mode pending.
    pub fn reset(&mut self)
        ensures
            final(self)@ == idle(),
            final(self)@.wf(),
    {
        self.state = PendingState::Idle;
        self.set_mode = None;
    }

    /// Takes one input event; hands out the command it completes, if any.
    pub fn feed_event(&mut self, event: Event) -> (r: Option<ReadyCommand>)
        ensures
            (final(self)@, ready_view(r)) == step(old(self)@, event),
            event == Event::Cancel ==> final(self)@ == idle() && r.is_none(),
            old(self)@.wf() ==> final(self)@.wf(),
            old(self)@.wf() ==> (r matches Some(c) ==> c.count >= 1),
    {
        let mut st = PendingState::Idle;
        core::mem::swap(&mut st, &mut self.state);
        match event {
            Event::Cancel => {
                self.reset();
                None
            },
            Event::SetMode(md) => {
                self.state = st;
                self.set_mode = Some(md);
                None
            },
            Event::SetOperator(op) => {
                match st {
                    PendingState::Idle => {
                        self.state = PendingState::AwaitingMotion {
                            operator: op,
                            count: None,
                            modifiers: Vec::new(),
                        };
                    },
                    other => {
                        self.state = other;
                    },
                }
                None
            },
            Event::AppendDigit(d) => {
                if d > 9 {
                    self.state = st;
                    return None;
                }
                match st {
                    PendingState::Idle => {
                        self.state = PendingState::Idle;
                    },
                    PendingState::AwaitingMotion { operator, count, modifiers } => {
                        self.state = PendingState::AwaitingMotion {
                            operator,
                            count: next_count(count, d),
                            modifiers,
                        };
                    },
                    PendingState::AwaitingModifier { operator, motion, count, modifiers } => {
                        self.state = PendingState::AwaitingModifier {
                            operator,
                            motion,
                            count: next_count(count, d),
                            modifiers,
                        };
                    },
                }
                None
            },
            Event::SetMotion(mo) => {
                match st {
                    PendingState::AwaitingMotion { operator, count, modifiers } => {
                        if is_satisfied(mo, &modifiers) {
                            let set_mode = self.set_mode;
                            self.reset();
                            Some(
                                ReadyCommand {
                                    operator,
                                    motion: mo,
                                    count: match count {
                                        Some(c) => c,
                                        None => 1,
                                    },
                                    modifiers,
                                    set_mode,
                                },
                            )
                        } else {
                            self.state = PendingState::AwaitingModifier {
                                operator,
                                motion: mo,
                                count,
                                modifiers,
                            };
                            None
                        }
                    },
                    other => {
                        self.state = other;
                        None
                    },
                }
            },
            Event::AppendModifier(q) => {
                match st {
                    PendingState::Idle => {
                        self.state = PendingState::Idle;
                        None
                    },
                    PendingState::AwaitingMotion { operator, count, modifiers } => {
                        let mut mods = modifiers;
                        add_modifier(&mut mods, q);
                        self.state = PendingState::AwaitingMotion { operator, count, modifiers: mods };
                        None
                    },
                    PendingState::AwaitingModifier { operator, motion, count, modifiers } => {
                        let mut mods = modifiers;
                        add_modifier(&mut mods, q);
                        if is_satisfied(motion, &mods) {
                            let set_mode = self.set_mode;
                            self.reset();
                            Some(
                                ReadyCommand {
                                    operator,
                                    motion,
                                    count: match count {
                                        Some(c) => c,
                                        None => 1,
                                    },
                                    modifiers: mods,
                                    set_mode,
                                },
                            )
                        } else {
                            self.state = PendingState::AwaitingModifier {
                                operator,
                                motion,
                                count,
                                modifiers: mods,
                            };
                            None
                        }
                    },
                }
            },
        }
    }
}

} // verus!
