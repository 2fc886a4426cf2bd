//! Decisions of the game client that do not depend on the engine: input
//! bindings, the double tap that quits, what a scene object becomes, and
//! where a player travels.
use vstd::prelude::*;
use crate::colony::Colony;
use rand::seq::IndexedRandom;
use crate::text::{chars_of, push_all, same_text, starts_with, starts_with_chars, string_from_chars};

verus! {

// ---------------------------------------------------------------------------
// Double tap
// ---------------------------------------------------------------------------
/// Counts presses of a key within a repeating time window; the action fires
/// when a window ends after enough presses. The window timer is driven by
/// the caller, who reports when a window has ended.
pub struct DoubleTap {
    taps: u32,
    counter: u32,
}

impl DoubleTap {
    /// Presses needed within one window.
    pub closed spec fn required(&self) -> u32 {
        self.taps
    }

    /// Presses counted in the current window.
    pub closed spec fn presses(&self) -> u32 {
        self.counter
    }

    /// Presses counted in the current window.
    pub fn count(&self) -> (r: u32)
        ensures
            r == self.presses(),
    {
        self.counter
    }

    /// Counts one press.
    pub fn increment(&mut self)
        requires
            old(self).presses() < u32::MAX,
        ensures
            final(self).presses() == old(self).presses() + 1,
            final(self).required() == old(self).required(),
    {
        self.counter = self.counter + 1;
    }

    fn fulfilled(&self) -> (r: bool)
        ensures
            r == (self.presses() >= self.required()),
    {
        self.counter >= self.taps
    }

    /// Called on every update with whether the window ended in it: when it
    /// did, the action fires if enough presses were counted, and the count
    /// starts over. Returns whether the action fires.
    pub fn on_complete(&mut self, window_ended: bool) -> (fire: bool)
        ensures
            fire == (window_ended && old(self).presses() >= old(self).required()),
            final(self).presses() == if window_ended {
                0
            } else {
                old(self).presses()
            },
            final(self).required() == old(self).required(),
    {
        if window_ended {
            let fire = self.fulfilled();
            self.counter = 0;
            fire
        } else {
            false
        }
    }
}

impl Default for DoubleTap {
    /// Two presses, none counted yet.
    fn default() -> (r: Self)
        ensures
            r.required() == 2,
            r.presses() == 0,
    {
        DoubleTap { taps: 2, counter: 0 }
    }
}

// ---------------------------------------------------------------------------
// Input
// ---------------------------------------------------------------------------
/// Actions of the user interface.
#[derive(Debug, Clone, Copy, PartialEq, Eq, Hash, Structural)]
pub enum UIAction {
    Escape,
    ColonyIris,
    ColonyLiberte,
    ColonyPlayground,
}

/// Actions of the controlled character.
#[derive(Debug, Clone, Copy, PartialEq, Eq, Hash, Structural)]
pub enum CharacterAction {
    Move,
    Aim,
    OrientationMode,
    Use,
    Inventory,
    Shoot,
    CameraZoomIn,
    CameraZoomOut,
    CameraRotateClockwise,
    CameraRotateCounterClockwise,
    Kill,
}

/// How an action reads its input.
#[derive(Debug, Clone, Copy, PartialEq, Eq, Structural)]
pub enum InputControlKind {
    Button,
    DualAxis,
}

/// The physical input an action is bound to.
#[derive(Debug, Clone, Copy, PartialEq, Eq, Structural)]
pub enum InputBinding {
    /// The W, A, S and D keys as a direction pad.
    Wasd,
    MouseLeft,
    MouseRight,
    KeyC,
    KeyE,
    KeyI,
    KeyK,
    KeyL,
    KeyP,
    KeyZ,
    Equal,
    Minus,
    Space,
    Escape,
}

/// The input each character action is bound to.
pub open spec fn character_binding(action: CharacterAction) -> InputBinding {
    match action {
        CharacterAction::Move => InputBinding::Wasd,
        CharacterAction::Aim => InputBinding::MouseRight,
        CharacterAction::Use => InputBinding::KeyE,
        CharacterAction::Kill => InputBinding::KeyK,
        CharacterAction::Shoot => InputBinding::MouseLeft,
        CharacterAction::Inventory => InputBinding::KeyI,
        CharacterAction::OrientationMode => InputBinding::Space,
        CharacterAction::CameraZoomIn => InputBinding::Equal,
        CharacterAction::CameraZoomOut => InputBinding::Minus,
        CharacterAction::CameraRotateClockwise => InputBinding::KeyZ,
        CharacterAction::CameraRotateCounterClockwise => InputBinding::KeyC,
    }
}

/// No two character actions share an input, and the direction pad belongs
/// to movement alone, the one action that reads two axes.
pub proof fn lemma_character_bindings_distinct(a: CharacterAction, b: CharacterAction)
    ensures
        a != b ==> character_binding(a) != character_binding(b),
        (character_binding(a) == InputBinding::Wasd) == (a == CharacterAction::Move),
{
}

impl CharacterAction {
    /// Movement reads two axes; every other action is a button.
    pub fn input_control_kind(&self) -> (r: InputControlKind)
        ensures
            r == if *self == CharacterAction::Move {
                InputControlKind::DualAxis
            } else {
                InputControlKind::Button
            },
    {
        match self {
            CharacterAction::Move => InputControlKind::DualAxis,
            _ => InputControlKind::Button,
        }
    }

    /// The input the action is bound to in the player's input map.
    pub fn binding(&self) -> (r: InputBinding)
        ensures
            r == character_binding(*self),
    {
        match self {
            CharacterAction::Move => InputBinding::Wasd,
            CharacterAction::Aim => InputBinding::MouseRight,
            CharacterAction::Use => InputBinding::KeyE,
            CharacterAction::Kill => InputBinding::KeyK,
            CharacterAction::Shoot => InputBinding::MouseLeft,
            CharacterAction::Inventory => InputBinding::KeyI,
            CharacterAction::OrientationMode => InputBinding::Space,
            CharacterAction::CameraZoomIn => InputBinding::Equal,
            CharacterAction::CameraZoomOut => InputBinding::Minus,
            CharacterAction::CameraRotateClockwise => InputBinding::KeyZ,
            CharacterAction::CameraRotateCounterClockwise => InputBinding::KeyC,
        }
    }
}

/// The input each interface action is bound to.
pub open spec fn ui_binding(action: UIAction) -> InputBinding {
    match action {
        UIAction::Escape => InputBinding::Escape,
        UIAction::ColonyIris => InputBinding::KeyI,
        UIAction::ColonyPlayground => InputBinding::KeyP,
        UIAction::ColonyLiberte => InputBinding::KeyL,
    }
}

/// No two interface actions share an input.
pub proof fn lemma_ui_bindings_distinct(a: UIAction, b: UIAction)
    ensures
        a != b ==> ui_binding(a) != ui_binding(b),
{
}

impl UIAction {
    /// The input the action is bound to in the interface's input map.
    pub fn binding(&self) -> (r: InputBinding)
        ensures
            r == ui_binding(*self),
    {
        match self {
            UIAction::Escape => InputBinding::Escape,
            UIAction::ColonyIris => InputBinding::KeyI,
            UIAction::ColonyPlayground => InputBinding::KeyP,
            UIAction::ColonyLiberte => InputBinding::KeyL,
        }
    }
}

/// The colony the star map sends the player to, from which colony keys were
/// just pressed; Iris wins over Liberte, and Liberte over the playground.
pub fn starmap_destination(iris: bool, liberte: bool, playground: bool) -> (r: Option<Colony>)
    ensures
        r == if iris {
            Some(Colony::Iris)
        } else if liberte {
            Some(Colony::Liberte)
        } else if playground {
            Some(Colony::Playground)
        } else {
            None
        },
{
    if iris {
        Some(Colony::Iris)
    } else if liberte {
        Some(Colony::Liberte)
    } else if playground {
        Some(Colony::Playground)
    } else {
        None
    }
}

// ---------------------------------------------------------------------------
// Colonies and scenes
// ---------------------------------------------------------------------------
/// The scene files a colony can be drawn from.
#[derive(Debug, Clone, Copy, PartialEq, Eq, Structural)]
pub enum ColonyScene {
    Cloning,
    Iris,
    Liberte,
}

/// The scene to load for the colony the client is in: none for the star
/// map, which is not a colony; colonies without a scene of their own use
/// Liberte's.
pub fn colony_scene(colony: Colony) -> (r: Option<ColonyScene>)
    ensures
        r == match colony {
            Colony::StarMap => None,
            Colony::Cloning => Some(ColonyScene::Cloning),
            Colony::Iris => Some(ColonyScene::Iris),
            _ => Some(ColonyScene::Liberte),
        },
{
    match colony {
        Colony::StarMap => None,
        Colony::Cloning => Some(ColonyScene::Cloning),
        Colony::Iris => Some(ColonyScene::Iris),
        _ => Some(ColonyScene::Liberte),
    }
}

/// Which barrier a field or control belongs to.
#[derive(Debug, Clone, Copy, PartialEq, Eq, Structural)]
pub enum BarrierId {
    B1,
    B2,
}

/// The components a named object of a colony scene receives.
#[derive(Debug, Clone, Copy, PartialEq, Eq, Structural)]
pub enum SceneComponents {
    /// A gate to the star map: a sensor that players touch.
    VortexGate,
    /// A node where players appear.
    VortexNode,
    /// The force field of a barrier.
    BarrierField(BarrierId),
    /// A control that opens a barrier.
    BarrierControl(BarrierId),
    /// An energy node of the territory.
    EnergyNode,
    /// Scenery that lives as long as the colony is played.
    PlantTree,
    /// Nothing is added.
    Nothing,
}

/// The components an object named `name` receives: the first of these
/// name prefixes that matches decides.
pub open spec fn scene_components(name: Seq<char>) -> SceneComponents {
    if starts_with(name, "VortexGate"@) {
        SceneComponents::VortexGate
    } else if starts_with(name, "VortexNode"@) {
        SceneComponents::VortexNode
    } else if starts_with(name, "BarrierField1"@) {
        SceneComponents::BarrierField(BarrierId::B1)
    } else if starts_with(name, "BarrierControl11"@) || starts_with(name, "BarrierControl12"@) {
        SceneComponents::BarrierControl(BarrierId::B1)
    } else if starts_with(name, "BarrierField2"@) {
        SceneComponents::BarrierField(BarrierId::B2)
    } else if starts_with(name, "BarrierControl21"@) || starts_with(name, "BarrierControl22"@) {
        SceneComponents::BarrierControl(BarrierId::B2)
    } else if starts_with(name, "EnergyNode1"@) {
        SceneComponents::EnergyNode
    } else if starts_with(name, "Plant Tree"@) {
        SceneComponents::PlantTree
    } else {
        SceneComponents::Nothing
    }
}

/// A name that begins with `p` begins with no text `q` that differs from
/// `p` at a position both reach.
proof fn lemma_prefix_clash(name: Seq<char>, p: Seq<char>, q: Seq<char>, i: int)
    requires
        starts_with(name, p),
        0 <= i < p.len(),
        i < q.len(),
        p[i] != q[i],
    ensures
        !starts_with(name, q),
{
    assert(name.subrange(0, p.len() as int)[i] == name[i]);
    if starts_with(name, q) {
        assert(name.subrange(0, q.len() as int)[i] == name[i]);
    }
}

/// What a scene object receives depends only on which of the known name
/// prefixes its name begins with: no name begins with two of them, each
/// prefix gives its own components, and a name with none receives nothing.
pub proof fn lemma_scene_components_by_prefix(name: Seq<char>)
    ensures
        starts_with(name, "VortexGate"@) ==> scene_components(name) == SceneComponents::VortexGate,
        starts_with(name, "VortexNode"@) ==> scene_components(name) == SceneComponents::VortexNode,
        starts_with(name, "BarrierField1"@) ==> scene_components(name) == SceneComponents::BarrierField(BarrierId::B1),
        starts_with(name, "BarrierControl11"@) ==> scene_components(name) == SceneComponents::BarrierControl(BarrierId::B1),
        starts_with(name, "BarrierControl12"@) ==> scene_components(name) == SceneComponents::BarrierControl(BarrierId::B1),
        starts_with(name, "BarrierField2"@) ==> scene_components(name) == SceneComponents::BarrierField(BarrierId::B2),
        starts_with(name, "BarrierControl21"@) ==> scene_components(name) == SceneComponents::BarrierControl(BarrierId::B2),
        starts_with(name, "BarrierControl22"@) ==> scene_components(name) == SceneComponents::BarrierControl(BarrierId::B2),
        starts_with(name, "EnergyNode1"@) ==> scene_components(name) == SceneComponents::EnergyNode,
        starts_with(name, "Plant Tree"@) ==> scene_components(name) == SceneComponents::PlantTree,
        !starts_with(name, "VortexGate"@)
            && !starts_with(name, "VortexNode"@)
            && !starts_with(name, "BarrierField1"@)
            && !starts_with(name, "BarrierControl11"@)
            && !starts_with(name, "BarrierControl12"@)
            && !starts_with(name, "BarrierField2"@)
            && !starts_with(name, "BarrierControl21"@)
            && !starts_with(name, "BarrierControl22"@)
            && !starts_with(name, "EnergyNode1"@)
            && !starts_with(name, "Plant Tree"@)
            ==> scene_components(name) == SceneComponents::Nothing,
{
    reveal_strlit("VortexGate");
    reveal_strlit("VortexNode");
    reveal_strlit("BarrierField1");
    reveal_strlit("BarrierControl11");
    reveal_strlit("BarrierControl12");
    reveal_strlit("BarrierField2");
    reveal_strlit("BarrierControl21");
    reveal_strlit("BarrierControl22");
    reveal_strlit("EnergyNode1");
    reveal_strlit("Plant Tree");
    if starts_with(name, "VortexGate"@) {
        lemma_prefix_clash(name, "VortexGate"@, "VortexNode"@, 6);
        lemma_prefix_clash(name, "VortexGate"@, "BarrierField1"@, 0);
        lemma_prefix_clash(name, "VortexGate"@, "BarrierControl11"@, 0);
        lemma_prefix_clash(name, "VortexGate"@, "BarrierControl12"@, 0);
        lemma_prefix_clash(name, "VortexGate"@, "BarrierField2"@, 0);
        lemma_prefix_clash(name, "VortexGate"@, "BarrierControl21"@, 0);
        lemma_prefix_clash(name, "VortexGate"@, "BarrierControl22"@, 0);
        lemma_prefix_clash(name, "VortexGate"@, "EnergyNode1"@, 0);
        lemma_prefix_clash(name, "VortexGate"@, "Plant Tree"@, 0);
    }
    if starts_with(name, "VortexNode"@) {
        lemma_prefix_clash(name, "VortexNode"@, "VortexGate"@, 6);
        lemma_prefix_clash(name, "VortexNode"@, "BarrierField1"@, 0);
        lemma_prefix_clash(name, "VortexNode"@, "BarrierControl11"@, 0);
        lemma_prefix_clash(name, "VortexNode"@, "BarrierControl12"@, 0);
        lemma_prefix_clash(name, "VortexNode"@, "BarrierField2"@, 0);
        lemma_prefix_clash(name, "VortexNode"@, "BarrierControl21"@, 0);
        lemma_prefix_clash(name, "VortexNode"@, "BarrierControl22"@, 0);
        lemma_prefix_clash(name, "VortexNode"@, "EnergyNode1"@, 0);
        lemma_prefix_clash(name, "VortexNode"@, "Plant Tree"@, 0);
    }
    if starts_with(name, "BarrierField1"@) {
        lemma_prefix_clash(name, "BarrierField1"@, "VortexGate"@, 0);
        lemma_prefix_clash(name, "BarrierField1"@, "VortexNode"@, 0);
        lemma_prefix_clash(name, "BarrierField1"@, "BarrierControl11"@, 7);
        lemma_prefix_clash(name, "BarrierField1"@, "BarrierControl12"@, 7);
        lemma_prefix_clash(name, "BarrierField1"@, "BarrierField2"@, 12);
        lemma_prefix_clash(name, "BarrierField1"@, "BarrierControl21"@, 7);
        lemma_prefix_clash(name, "BarrierField1"@, "BarrierControl22"@, 7);
        lemma_prefix_clash(name, "BarrierField1"@, "EnergyNode1"@, 0);
        lemma_prefix_clash(name, "BarrierField1"@, "Plant Tree"@, 0);
    }
    if starts_with(name, "BarrierControl11"@) {
        lemma_prefix_clash(name, "BarrierControl11"@, "VortexGate"@, 0);
        lemma_prefix_clash(name, "BarrierControl11"@, "VortexNode"@, 0);
        lemma_prefix_clash(name, "BarrierControl11"@, "BarrierField1"@, 7);
        lemma_prefix_clash(name, "BarrierControl11"@, "BarrierControl12"@, 15);
        lemma_prefix_clash(name, "BarrierControl11"@, "BarrierField2"@, 7);
        lemma_prefix_clash(name, "BarrierControl11"@, "BarrierControl21"@, 14);
        lemma_prefix_clash(name, "BarrierControl11"@, "BarrierControl22"@, 14);
        lemma_prefix_clash(name, "BarrierControl11"@, "EnergyNode1"@, 0);
        lemma_prefix_clash(name, "BarrierControl11"@, "Plant Tree"@, 0);
    }
    if starts_with(name, "BarrierControl12"@) {
        lemma_prefix_clash(name, "BarrierControl12"@, "VortexGate"@, 0);
        lemma_prefix_clash(name, "BarrierControl12"@, "VortexNode"@, 0);
        lemma_prefix_clash(name, "BarrierControl12"@, "BarrierField1"@, 7);
        lemma_prefix_clash(name, "BarrierControl12"@, "BarrierControl11"@, 15);
        lemma_prefix_clash(name, "BarrierControl12"@, "BarrierField2"@, 7);
        lemma_prefix_clash(name, "BarrierControl12"@, "BarrierControl21"@, 14);
        lemma_prefix_clash(name, "BarrierControl12"@, "BarrierControl22"@, 14);
        lemma_prefix_clash(name, "BarrierControl12"@, "EnergyNode1"@, 0);
        lemma_prefix_clash(name, "BarrierControl12"@, "Plant Tree"@, 0);
    }
    if starts_with(name, "BarrierField2"@) {
        lemma_prefix_clash(name, "BarrierField2"@, "VortexGate"@, 0);
        lemma_prefix_clash(name, "BarrierField2"@, "VortexNode"@, 0);
        lemma_prefix_clash(name, "BarrierField2"@, "BarrierField1"@, 12);
        lemma_prefix_clash(name, "BarrierField2"@, "BarrierControl11"@, 7);
        lemma_prefix_clash(name, "BarrierField2"@, "BarrierControl12"@, 7);
        lemma_prefix_clash(name, "BarrierField2"@, "BarrierControl21"@, 7);
        lemma_prefix_clash(name, "BarrierField2"@, "BarrierControl22"@, 7);
        lemma_prefix_clash(name, "BarrierField2"@, "EnergyNode1"@, 0);
        lemma_prefix_clash(name, "BarrierField2"@, "Plant Tree"@, 0);
    }
    if starts_with(name, "BarrierControl21"@) {
        lemma_prefix_clash(name, "BarrierControl21"@, "VortexGate"@, 0);
        lemma_prefix_clash(name, "BarrierControl21"@, "VortexNode"@, 0);
        lemma_prefix_clash(name, "BarrierControl21"@, "BarrierField1"@, 7);
        lemma_prefix_clash(name, "BarrierControl21"@, "BarrierControl11"@, 14);
        lemma_prefix_clash(name, "BarrierControl21"@, "BarrierControl12"@, 14);
        lemma_prefix_clash(name, "BarrierControl21"@, "BarrierField2"@, 7);
        lemma_prefix_clash(name, "BarrierControl21"@, "BarrierControl22"@, 15);
        lemma_prefix_clash(name, "BarrierControl21"@, "EnergyNode1"@, 0);
        lemma_prefix_clash(name, "BarrierControl21"@, "Plant Tree"@, 0);
    }
    if starts_with(name, "BarrierControl22"@) {
        lemma_prefix_clash(name, "BarrierControl22"@, "VortexGate"@, 0);
        lemma_prefix_clash(name, "BarrierControl22"@, "VortexNode"@, 0);
        lemma_prefix_clash(name, "BarrierControl22"@, "BarrierField1"@, 7);
        lemma_prefix_clash(name, "BarrierControl22"@, "BarrierControl11"@, 14);
        lemma_prefix_clash(name, "BarrierControl22"@, "BarrierControl12"@, 14);
        lemma_prefix_clash(name, "BarrierControl22"@, "BarrierField2"@, 7);
        lemma_prefix_clash(name, "BarrierControl22"@, "BarrierControl21"@, 15);
        lemma_prefix_clash(name, "BarrierControl22"@, "EnergyNode1"@, 0);
        lemma_prefix_clash(name, "BarrierControl22"@, "Plant Tree"@, 0);
    }
    if starts_with(name, "EnergyNode1"@) {
        lemma_prefix_clash(name, "EnergyNode1"@, "VortexGate"@, 0);
        lemma_prefix_clash(name, "EnergyNode1"@, "VortexNode"@, 0);
        lemma_prefix_clash(name, "EnergyNode1"@, "BarrierField1"@, 0);
        lemma_prefix_clash(name, "EnergyNode1"@, "BarrierControl11"@, 0);
        lemma_prefix_clash(name, "EnergyNode1"@, "BarrierControl12"@, 0);
        lemma_prefix_clash(name, "EnergyNode1"@, "BarrierField2"@, 0);
        lemma_prefix_clash(name, "EnergyNode1"@, "BarrierControl21"@, 0);
        lemma_prefix_clash(name, "EnergyNode1"@, "BarrierControl22"@, 0);
        lemma_prefix_clash(name, "EnergyNode1"@, "Plant Tree"@, 0);
    }
    if starts_with(name, "Plant Tree"@) {
        lemma_prefix_clash(name, "Plant Tree"@, "VortexGate"@, 0);
        lemma_prefix_clash(name, "Plant Tree"@, "VortexNode"@, 0);
        lemma_prefix_clash(name, "Plant Tree"@, "BarrierField1"@, 0);
        lemma_prefix_clash(name, "Plant Tree"@, "BarrierControl11"@, 0);
        lemma_prefix_clash(name, "Plant Tree"@, "BarrierControl12"@, 0);
        lemma_prefix_clash(name, "Plant Tree"@, "BarrierField2"@, 0);
        lemma_prefix_clash(name, "Plant Tree"@, "BarrierControl21"@, 0);
        lemma_prefix_clash(name, "Plant Tree"@, "BarrierControl22"@, 0);
        lemma_prefix_clash(name, "Plant Tree"@, "EnergyNode1"@, 0);
    }
}

fn has_prefix(name: &[char], prefix: &str) -> (r: bool)
    ensures
        r == starts_with(name@, prefix@),
{
    let p = chars_of(prefix);
    starts_with_chars(name, p.as_slice())
}

/// The components that the scene object named `name` receives.
pub fn components(name: &str) -> (r: SceneComponents)
    ensures
        r == scene_components(name@),
{
    let n = chars_of(name);
    let s = n.as_slice();
    if has_prefix(s, "VortexGate") {
        SceneComponents::VortexGate
    } else if has_prefix(s, "VortexNode") {
        SceneComponents::VortexNode
    } else if has_prefix(s, "BarrierField1") {
        SceneComponents::BarrierField(BarrierId::B1)
    } else if has_prefix(s, "BarrierControl11") || has_prefix(s, "BarrierControl12") {
        SceneComponents::BarrierControl(BarrierId::B1)
    } else if has_prefix(s, "BarrierField2") {
        SceneComponents::BarrierField(BarrierId::B2)
    } else if has_prefix(s, "BarrierControl21") || has_prefix(s, "BarrierControl22") {
        SceneComponents::BarrierControl(BarrierId::B2)
    } else if has_prefix(s, "EnergyNode1") {
        SceneComponents::EnergyNode
    } else if has_prefix(s, "Plant Tree") {
        SceneComponents::PlantTree
    } else {
        SceneComponents::Nothing
    }
}

/// The player that a collision sends through a vortex gate: of the two
/// colliding entities, the one that is a player when the other is a gate,
/// the first pairing tried first. Such a player is sent to the star map.
pub fn vortex_traveller<E: Copy>(
    first: E,
    second: E,
    first_is_gate: bool,
    first_is_player: bool,
    second_is_gate: bool,
    second_is_player: bool,
) -> (r: Option<E>)
    ensures
        r == if first_is_gate && second_is_player {
            Some(second)
        } else if second_is_gate && first_is_player {
            Some(first)
        } else {
            None
        },
{
    if first_is_gate && second_is_player {
        Some(second)
    } else if second_is_gate && first_is_player {
        Some(first)
    } else {
        None
    }
}

/// The animations of the player's mannequin.
#[derive(Debug, Clone, Copy, PartialEq, Eq, Structural)]
pub enum MannequinAnimation {
    Idle,
    Run,
}

/// The animation to start: running while the character moves, idling
/// otherwise, and nothing when that animation already plays.
pub fn animation_to_start(is_moving: bool, run_playing: bool, idle_playing: bool) -> (r: Option<
    MannequinAnimation,
>)
    ensures
        r == if is_moving {
            if run_playing {
                None
            } else {
                Some(MannequinAnimation::Run)
            }
        } else if idle_playing {
            None
        } else {
            Some(MannequinAnimation::Idle)
        },
{
    if is_moving {
        if run_playing {
            None
        } else {
            Some(MannequinAnimation::Run)
        }
    } else if idle_playing {
        None
    } else {
        Some(MannequinAnimation::Idle)
    }
}

/// How the character faces: along its direction of movement, or towards a
/// location on the ground.
#[derive(Debug)]
pub enum OrientationMode<P> {
    Direction,
    Location(P),
}

/// The mode after the orientation key is pressed with the cursor over
/// `cursor`: facing a direction switches to facing the cursor, and facing a
/// location switches back to facing the direction.
pub open spec fn toggled_mode<P>(mode: OrientationMode<P>, cursor: P) -> OrientationMode<P> {
    match mode {
        OrientationMode::Direction => OrientationMode::Location(cursor),
        OrientationMode::Location(_) => OrientationMode::Direction,
    }
}

impl<P> OrientationMode<P> {
    /// The mode after the orientation key is pressed with the cursor over
    /// `cursor`.
    pub fn toggled(self, cursor: P) -> (r: Self)
        ensures
            r == toggled_mode(self, cursor),
    {
        match self {
            OrientationMode::Direction => OrientationMode::Location(cursor),
            OrientationMode::Location(_) => OrientationMode::Direction,
        }
    }

    /// The mode after the cursor moved to `cursor`: a character that faces
    /// a location keeps facing the cursor.
    pub fn following(self, cursor: P) -> (r: Self)
        ensures
            r == match self {
                OrientationMode::Direction => OrientationMode::Direction,
                OrientationMode::Location(_) => OrientationMode::Location(cursor),
            },
    {
        match self {
            OrientationMode::Direction => OrientationMode::Direction,
            OrientationMode::Location(_) => OrientationMode::Location(cursor),
        }
    }
}

/// Pressing the orientation key twice with the cursor in place leaves a
/// character that faced its direction facing it again, and one that faced
/// a location facing the cursor.
pub proof fn lemma_toggle_twice<P>(mode: OrientationMode<P>, cursor: P)
    ensures
        toggled_mode(toggled_mode(mode, cursor), cursor) == match mode {
            OrientationMode::Direction => OrientationMode::<P>::Direction,
            OrientationMode::Location(_) => OrientationMode::Location(cursor),
        },
{
}

/// The names of the items, separated by a comma and a space.
pub open spec fn joined_names(names: Seq<Seq<char>>) -> Seq<char>
    decreases names.len(),
{
    if names.len() == 0 {
        Seq::empty()
    } else if names.len() == 1 {
        names[0]
    } else {
        joined_names(names.drop_last()) + ", "@ + names.last()
    }
}

/// The line that lists an inventory: `Inventory: [` and the item names
/// separated by commas, then `]`.
pub open spec fn inventory_text(names: Seq<Seq<char>>) -> Seq<char> {
    "Inventory: ["@ + joined_names(names) + "]"@
}

/// Listing names joins the list of each part with a comma and a space
/// between them, and a single name is listed as it is.
pub proof fn lemma_joined_names_concat(x: Seq<Seq<char>>, y: Seq<Seq<char>>)
    requires
        x.len() > 0,
        y.len() > 0,
    ensures
        joined_names(x + y) == joined_names(x) + ", "@ + joined_names(y),
        joined_names(seq![y[0]]) == y[0],
    decreases y.len(),
{
    assert((x + y).drop_last() =~= x + y.drop_last());
    assert((x + y).last() == y.last());
    if y.len() == 1 {
        assert(x + y.drop_last() =~= x);
        assert(y.last() == y[0]);
    } else {
        lemma_joined_names_concat(x, y.drop_last());
        let a = joined_names(x);
        let b = joined_names(y.drop_last());
        assert(a + ", "@ + b + ", "@ + y.last() =~= a + ", "@ + (b + ", "@ + y.last()));
    }
}

/// The line that lists the inventory whose items are named `names`.
pub fn inventory_line(names: &Vec<String>) -> (r: String)
    ensures
        r@ == inventory_text(names@.map_values(|s: String| s@)),
{
    let ghost views = names@.map_values(|s: String| s@);
    let mut out: Vec<char> = chars_of("Inventory: [");
    let separator = chars_of(", ");
    let ghost head = out@;
    let mut i: usize = 0;
    assert(views.take(0) =~= Seq::<Seq<char>>::empty());
    assert(out@ =~= head + joined_names(views.take(0)));
    while i < names.len()
        invariant
            i <= names@.len(),
            views == names@.map_values(|s: String| s@),
            separator@ == ", "@,
            out@ == head + joined_names(views.take(i as int)),
        decreases names@.len() - i,
    {
        let name = chars_of(names[i].as_str());
        assert(views.take(i + 1).drop_last() =~= views.take(i as int));
        assert(views.take(i + 1).last() == name@);
        if i > 0 {
            push_all(&mut out, separator.as_slice());
            push_all(&mut out, name.as_slice());
            assert(out@ =~= head + joined_names(views.take(i + 1)));
        } else {
            push_all(&mut out, name.as_slice());
            assert(out@ =~= head + joined_names(views.take(i + 1)));
        }
        i = i + 1;
    }
    let close = chars_of("]");
    push_all(&mut out, close.as_slice());
    assert(views.take(names@.len() as int) =~= views);
    string_from_chars(out.as_slice())
}

/// Whether a named input action quits the game.
pub fn is_quit_action(action: &str) -> (r: bool)
    ensures
        r == (action@ == "QUIT_APP"@),
{
    let a = chars_of(action);
    let q = chars_of("QUIT_APP");
    same_text(a.as_slice(), q.as_slice())
}

/// `rand::seq::IndexedRandom::choose` with the thread-local generator: one
/// of the positions, drawn uniformly, or none when there are none. Claimed
/// here: the result is one of the positions, and there is one exactly when
/// the list is not empty; which one is left to chance and not stated.
#[verifier::external_body]
fn choose_position<P: Copy>(positions: &[P]) -> (r: Option<P>)
    ensures
        r is None <==> positions@.len() == 0,
        r matches Some(p) ==> positions@.contains(p),
{
    positions.choose(&mut rand::rng()).copied()
}

/// Where a joining player appears: at one of the vortex nodes of the
/// colony, picked at random, or at `fallback` when the colony has none.
pub fn spawn_point<P: Copy>(node_positions: &[P], fallback: P) -> (r: P)
    ensures
        node_positions@.len() == 0 ==> r == fallback,
        node_positions@.len() > 0 ==> node_positions@.contains(r),
{
    match choose_position(node_positions) {
        Some(p) => p,
        None => fallback,
    }
}

/// Whether setting up a local player is an error to report: there may be
/// only one local player, so one that is set up while `local_players`
/// others exist is reported; the setup still goes on.
pub fn second_local_player(local_players: usize) -> (r: bool)
    ensures
        r == (local_players > 0),
{
    local_players > 0
}

/// Whether the pointer is over an interactive object.
#[derive(Debug, Clone, Copy, PartialEq, Eq, Structural)]
pub enum Hover {
    Over,
    Out,
}

/// A zone that damages the players inside it.
#[derive(Debug, Clone, Copy, PartialEq, Eq, Structural)]
pub struct DamageZone {
    pub damage: u32,
}

impl DamageZone {
    pub fn new(damage: u32) -> (r: Self)
        ensures
            r.damage == damage,
    {
        DamageZone { damage }
    }
}

} // verus!
