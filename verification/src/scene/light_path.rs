use vstd::prelude::*;

verus! {

/// How a light path stopped.
#[derive(Clone, Copy, Debug, PartialEq, Eq, Structural)]
pub enum PathEnd {
    /// The bounce budget ran out: the path contributes black.
    Exhausted,
    /// A material swallowed the ray: the path contributes black.
    Absorbed,
    /// The ray left the scene: the path contributes the sky behind it.
    Escaped,
}

/// What the light transport has to do next for a path.
#[derive(Clone, Copy, Debug, PartialEq, Eq, Structural)]
pub enum Step {
    /// Intersect the current ray with the scene.
    Intersect,
    /// Let the material at `material_handle` scatter the current ray at the
    /// hit that was just found.
    Scatter { material_handle: usize },
    /// Nothing: the path is over.
    Finished { end: PathEnd },
}

/// What the light transport found when it did the step asked of it.
#[derive(Clone, Copy, Debug, PartialEq, Eq, Structural)]
pub enum Event {
    /// `Intersect` found no surface in front of the ray.
    Miss,
    /// `Intersect` found a surface whose material is `material_handle`.
    Hit { material_handle: usize },
    /// `Scatter` produced a new ray, which is now the current one.
    Scattered,
    /// `Scatter` produced no ray.
    Absorbed,
}

/// What the scene does to one ray of a path, as one whole bounce.
#[derive(Clone, Copy, Debug, PartialEq, Eq, Structural)]
pub enum Bounce {
    /// The ray meets no surface.
    Miss,
    /// The ray meets a surface whose material swallows it.
    Absorbed { material_handle: usize },
    /// The ray meets a surface whose material sends a new ray on.
    Scattered { material_handle: usize },
}

/// The state of a light path as plain numbers.
pub struct PathModel {
    /// Size of the material table that hits refer into.
    pub materials: nat,
    /// Bounces the path may still make.
    pub depth: nat,
    /// Bounces the path has made. Each left an attenuation behind.
    pub bounces: nat,
    /// Attenuations that the colour of the path has not been multiplied by
    /// yet: those of the bounces before this number.
    pub pending: nat,
    pub step: Step,
}

impl PathEnd {
    /// Whether a path that stopped this way contributes no light.
    pub open spec fn is_black(self) -> bool {
        self != PathEnd::Escaped
    }
}

impl PathModel {
    /// The step of a path that is about to look at a ray with `depth` bounces
    /// left: none left ends the path.
    pub open spec fn entry(depth: nat) -> Step {
        if depth == 0 {
            Step::Finished { end: PathEnd::Exhausted }
        } else {
            Step::Intersect
        }
    }

    /// A path that has made `made` bounces and is about to look at a ray with
    /// `depth` bounces left.
    pub open spec fn entered(materials: nat, depth: nat, made: nat) -> PathModel {
        PathModel { materials, depth, bounces: made, pending: made, step: Self::entry(depth) }
    }

    /// A path that has made no bounce yet.
    pub open spec fn start(max_depth: nat, materials: nat) -> PathModel {
        Self::entered(materials, max_depth, 0)
    }

    /// What holds of every path that was started and advanced: a path that is
    /// not over has budget left and all its attenuations pending, and a
    /// material it asks for is in the table.
    pub open spec fn inv(self) -> bool {
        &&& self.pending <= self.bounces
        &&& match self.step {
            Step::Intersect => self.depth > 0 && self.pending == self.bounces,
            Step::Scatter { material_handle } => {
                &&& self.depth > 0
                &&& self.pending == self.bounces
                &&& material_handle < self.materials
            },
            Step::Finished { end } => end == PathEnd::Exhausted ==> self.depth == 0,
        }
    }

    /// Whether the path is over.
    pub open spec fn finished(self) -> bool {
        self.step is Finished
    }

    /// Whether `event` answers the step that the path asked for. A hit must
    /// name a material of the table.
    pub open spec fn accepts(self, event: Event) -> bool {
        match (self.step, event) {
            (Step::Intersect, Event::Miss) => true,
            (Step::Intersect, Event::Hit { material_handle }) => material_handle < self.materials,
            (Step::Scatter { .. }, Event::Scattered) => true,
            (Step::Scatter { .. }, Event::Absorbed) => true,
            _ => false,
        }
    }

    /// The path after `event`. An event that the path does not accept leaves
    /// it as it is.
    pub open spec fn next(self, event: Event) -> PathModel {
        if !self.accepts(event) {
            self
        } else {
            match event {
                Event::Miss => PathModel { step: Step::Finished { end: PathEnd::Escaped }, ..self },
                Event::Hit { material_handle } => PathModel {
                    step: Step::Scatter { material_handle },
                    ..self
                },
                Event::Absorbed => PathModel {
                    step: Step::Finished { end: PathEnd::Absorbed },
                    ..self
                },
                Event::Scattered => PathModel {
                    depth: (self.depth - 1) as nat,
                    bounces: self.bounces + 1,
                    pending: self.pending + 1,
                    step: Self::entry((self.depth - 1) as nat),
                    ..self
                },
            }
        }
    }

    /// An upper bound on the events that the path can still accept.
    pub open spec fn fuel(self) -> nat {
        match self.step {
            Step::Intersect => 2 * self.depth,
            Step::Scatter { .. } => (2 * self.depth - 1) as nat,
            Step::Finished { .. } => 0,
        }
    }

    /// The bounce whose attenuation the colour of the path is to be multiplied
    /// by next: the latest that is pending, once the path is over.
    pub open spec fn next_attenuation(self) -> Option<nat> {
        if self.finished() && self.pending > 0 {
            Some((self.pending - 1) as nat)
        } else {
            None
        }
    }

    /// The path after the attenuation that `next_attenuation` names was
    /// applied.
    pub open spec fn attenuated(self) -> PathModel {
        if self.finished() && self.pending > 0 {
            PathModel { pending: (self.pending - 1) as nat, ..self }
        } else {
            self
        }
    }

    /// The path after `events`, one after another.
    pub open spec fn run(self, events: Seq<Event>) -> PathModel
        decreases events.len(),
    {
        if events.len() == 0 {
            self
        } else {
            self.next(events[0]).run(events.skip(1))
        }
    }
}

/// The events by which one bounce reaches a path.
pub open spec fn bounce_events(bounce: Bounce) -> Seq<Event> {
    match bounce {
        Bounce::Miss => seq![Event::Miss],
        Bounce::Absorbed { material_handle } => seq![
            Event::Hit { material_handle },
            Event::Absorbed,
        ],
        Bounce::Scattered { material_handle } => seq![
            Event::Hit { material_handle },
            Event::Scattered,
        ],
    }
}

/// The events of `bounces`, in order.
pub open spec fn events_of(bounces: Seq<Bounce>) -> Seq<Event>
    decreases bounces.len(),
{
    if bounces.len() == 0 {
        Seq::empty()
    } else {
        bounce_events(bounces[0]) + events_of(bounces.skip(1))
    }
}

/// The material that a bounce refers to, if it hit anything.
pub open spec fn bounce_material(bounce: Bounce) -> Option<usize> {
    match bounce {
        Bounce::Miss => None,
        Bounce::Absorbed { material_handle } => Some(material_handle),
        Bounce::Scattered { material_handle } => Some(material_handle),
    }
}

/// The recursive definition of a path: how a ray with `depth` bounces left
/// ends when the scene answers with `bounces`, and after how many scatterings.
/// `None` when `bounces` stops before the path does.
pub open spec fn trace(depth: nat, bounces: Seq<Bounce>) -> Option<(PathEnd, nat)>
    decreases depth,
{
    if depth == 0 {
        Some((PathEnd::Exhausted, 0nat))
    } else if bounces.len() == 0 {
        None
    } else {
        match bounces[0] {
            Bounce::Miss => Some((PathEnd::Escaped, 0nat)),
            Bounce::Absorbed { .. } => Some((PathEnd::Absorbed, 0nat)),
            Bounce::Scattered { .. } => match trace((depth - 1) as nat, bounces.skip(1)) {
                Some((end, scattered)) => Some((end, scattered + 1)),
                None => None,
            },
        }
    }
}

/// The recursive definition of the colour of a path: the colour that its end
/// gives, multiplied by the attenuation of each bounce on the way back, the
/// last bounce first. `times(colour, attenuation)` stands for the product,
/// of which nothing is supposed.
pub open spec fn recursive_colour<C>(
    end_colour: C,
    attenuations: Seq<C>,
    times: spec_fn(C, C) -> C,
) -> C
    decreases attenuations.len(),
{
    if attenuations.len() == 0 {
        end_colour
    } else {
        times(recursive_colour(end_colour, attenuations.skip(1), times), attenuations[0])
    }
}

/// The colour that a finished path arrives at from `colour` when every
/// attenuation that `next_attenuation` names is applied in turn.
pub open spec fn unwound_colour<C>(
    path: PathModel,
    colour: C,
    attenuations: Seq<C>,
    times: spec_fn(C, C) -> C,
) -> C
    decreases path.pending,
{
    match path.next_attenuation() {
        Some(bounce) => unwound_colour(
            path.attenuated(),
            times(colour, attenuations[bounce as int]),
            attenuations,
            times,
        ),
        None => colour,
    }
}

/// One light path of the integrator: it says which step the light transport
/// has to do next and takes what the step found.
#[derive(Clone, Copy, Debug)]
pub struct LightPath {
    materials: usize,
    depth: u64,
    bounces: u64,
    pending: u64,
    step: Step,
}

impl View for LightPath {
    type V = PathModel;

    closed spec fn view(&self) -> PathModel {
        PathModel {
            materials: self.materials as nat,
            depth: self.depth as nat,
            bounces: self.bounces as nat,
            pending: self.pending as nat,
            step: self.step,
        }
    }
}

impl LightPath {
    #[verifier::type_invariant]
    spec fn well_formed(self) -> bool {
        &&& self@.inv()
        &&& self.depth + self.bounces <= u64::MAX
    }

    /// Starts a path with a budget of `max_depth` bounces in a scene with
    /// `materials` materials. With no budget the path is over at once.
    pub fn new(max_depth: u64, materials: usize) -> (path: Self)
        ensures
            path@ == PathModel::start(max_depth as nat, materials as nat),
    {
        let step = if max_depth == 0 {
            Step::Finished { end: PathEnd::Exhausted }
        } else {
            Step::Intersect
        };
        LightPath { materials, depth: max_depth, bounces: 0, pending: 0, step }
    }

    /// What has to be done next for the path.
    pub fn step(&self) -> (step: Step)
        ensures
            step == self@.step,
            self@.inv(),
    {
        proof {
            use_type_invariant(self);
        }
        self.step
    }

    /// Bounces made so far.
    pub fn bounces(&self) -> (bounces: u64)
        ensures
            bounces == self@.bounces,
    {
        self.bounces
    }

    /// Bounces left.
    pub fn depth(&self) -> (depth: u64)
        ensures
            depth == self@.depth,
    {
        self.depth
    }

    /// Size of the material table that the path was started with.
    pub fn materials(&self) -> (materials: usize)
        ensures
            materials == self@.materials,
    {
        self.materials
    }

    /// How the path ended, if it has.
    pub fn end(&self) -> (end: Option<PathEnd>)
        ensures
            end == (match self@.step {
                Step::Finished { end } => Some(end),
                _ => None,
            }),
    {
        match self.step {
            Step::Finished { end } => Some(end),
            _ => None,
        }
    }

    /// Whether `event` answers the step that the path asked for.
    pub fn accepts(&self, event: Event) -> (ok: bool)
        ensures
            ok == self@.accepts(event),
    {
        match (self.step, event) {
            (Step::Intersect, Event::Miss) => true,
            (Step::Intersect, Event::Hit { material_handle }) => material_handle < self.materials,
            (Step::Scatter { .. }, Event::Scattered) => true,
            (Step::Scatter { .. }, Event::Absorbed) => true,
            _ => false,
        }
    }

    /// Takes what the step found and moves on to the next step.
    pub fn advance(&mut self, event: Event)
        requires
            old(self)@.accepts(event),
        ensures
            final(self)@ == old(self)@.next(event),
    {
        proof {
            use_type_invariant(&*self);
        }
        let next = match event {
            Event::Miss => LightPath {
                materials: self.materials,
                depth: self.depth,
                bounces: self.bounces,
                pending: self.pending,
                step: Step::Finished { end: PathEnd::Escaped },
            },
            Event::Hit { material_handle } => LightPath {
                materials: self.materials,
                depth: self.depth,
                bounces: self.bounces,
                pending: self.pending,
                step: Step::Scatter { material_handle },
            },
            Event::Absorbed => LightPath {
                materials: self.materials,
                depth: self.depth,
                bounces: self.bounces,
                pending: self.pending,
                step: Step::Finished { end: PathEnd::Absorbed },
            },
            Event::Scattered => {
                let depth: u64 = self.depth - 1;
                let step = if depth == 0 {
                    Step::Finished { end: PathEnd::Exhausted }
                } else {
                    Step::Intersect
                };
                LightPath {
                    materials: self.materials,
                    depth,
                    bounces: self.bounces + 1,
                    pending: self.pending + 1,
                    step,
                }
            },
        };
        *self = next;
    }

    /// Attenuations that the colour has not been multiplied by yet.
    pub fn pending(&self) -> (pending: u64)
        ensures
            pending == self@.pending,
    {
        self.pending
    }

    /// Names the bounce whose attenuation the colour of the path is to be
    /// multiplied by next, and takes it as applied. The bounces come latest
    /// first, as a recursion multiplies on its way back; `None` when the path
    /// is not over yet or nothing is pending, and then nothing changes.
    pub fn next_attenuation(&mut self) -> (bounce: Option<u64>)
        ensures
            final(self)@ == old(self)@.attenuated(),
            match bounce {
                Some(bounce) => old(self)@.next_attenuation() == Some(bounce as nat),
                None => old(self)@.next_attenuation().is_none(),
            },
    {
        proof {
            use_type_invariant(&*self);
        }
        match self.step {
            Step::Finished { .. } => {
                if self.pending > 0 {
                    let bounce: u64 = self.pending - 1;
                    *self = LightPath {
                        materials: self.materials,
                        depth: self.depth,
                        bounces: self.bounces,
                        pending: bounce,
                        step: self.step,
                    };
                    Some(bounce)
                } else {
                    None
                }
            },
            _ => None,
        }
    }
}

} // verus!
