//! Small component types: entity status, physics modes, property kinds, log levels and the
//! markers that group engine helpers.
use vstd::prelude::*;

verus! {

/// Serialized form of [`EntityStatus`], as stored in the scene file.
#[derive(Debug, Clone, Copy, PartialEq, Eq, Structural, Default)]
pub struct SerializedEntityStatus {
    /// The entity is not rendered, but its logic runs.
    pub hidden: bool,
    /// Every component update of the entity is suppressed.
    pub disabled: bool,
}

/// Runtime visibility and activation flags of an entity.
#[derive(Debug, Clone, Copy, PartialEq, Eq, Structural)]
pub struct EntityStatus {
    pub hidden: bool,
    pub disabled: bool,
}

impl EntityStatus {
    /// The status loaded from its serialized form.
    pub fn from_serialized(ser: &SerializedEntityStatus) -> (r: Self)
        ensures
            r.hidden == ser.hidden,
            r.disabled == ser.disabled,
    {
        EntityStatus { hidden: ser.hidden, disabled: ser.disabled }
    }

    /// The serialized form of the status.
    pub fn save(&self) -> (r: SerializedEntityStatus)
        ensures
            r.hidden == self.hidden,
            r.disabled == self.disabled,
    {
        SerializedEntityStatus { hidden: self.hidden, disabled: self.disabled }
    }
}

/// Law: saving a loaded status gives back what was stored.
pub proof fn law_entity_status_round_trip(ser: SerializedEntityStatus)
    ensures
        (SerializedEntityStatus {
            hidden: (EntityStatus { hidden: ser.hidden, disabled: ser.disabled }).hidden,
            disabled: (EntityStatus { hidden: ser.hidden, disabled: ser.disabled }).disabled,
        }) == ser,
{
}

/// When the per-frame update of a component is skipped, given the entity's status.
#[derive(Debug, Clone, Copy, PartialEq, Eq, Structural)]
pub enum DisabilityFlags {
    /// Skipped when the entity is disabled.
    Disabled,
    /// Skipped when the entity is hidden or disabled.
    Hidden,
    /// Never skipped (meta-components such as the entity status itself).
    Never,
}

impl Default for DisabilityFlags {
    fn default() -> (r: Self)
        ensures
            r == DisabilityFlags::Disabled,
    {
        DisabilityFlags::Disabled
    }
}

/// What the editor and the registry know of a component type.
#[derive(Debug)]
pub struct ComponentDescriptor {
    /// Fully qualified type name.
    pub fqtn: String,
    /// Short type name.
    pub short_name: String,
    /// Category shown in the editor, if any.
    pub category: Option<String>,
    /// What the component does, if described.
    pub description: Option<String>,
    /// When its update is skipped.
    pub disabled_flags: DisabilityFlags,
    /// Internal components are not offered in the "Add Component" picker.
    pub internal: bool,
}

/// A component descriptor as plain values.
pub struct DescriptorView {
    pub fqtn: Seq<char>,
    pub short_name: Seq<char>,
    pub category: Option<Seq<char>>,
    pub description: Option<Seq<char>>,
    pub disabled_flags: DisabilityFlags,
    pub internal: bool,
}

/// The text of an optional string.
pub open spec fn opt_text(o: Option<String>) -> Option<Seq<char>> {
    match o {
        Some(s) => Some(s@),
        None => None,
    }
}

impl View for ComponentDescriptor {
    type V = DescriptorView;

    open spec fn view(&self) -> DescriptorView {
        DescriptorView {
            fqtn: self.fqtn@,
            short_name: self.short_name@,
            category: opt_text(self.category),
            description: opt_text(self.description),
            disabled_flags: self.disabled_flags,
            internal: self.internal,
        }
    }
}

/// A copy of an optional string.
fn copy_opt_text(o: &Option<String>) -> (r: Option<String>)
    ensures
        opt_text(r) == opt_text(*o),
{
    match o {
        Some(s) => Some(s.clone()),
        None => None,
    }
}

impl Clone for ComponentDescriptor {
    fn clone(&self) -> (r: Self)
        ensures
            r@ == self@,
    {
        ComponentDescriptor {
            fqtn: self.fqtn.clone(),
            short_name: self.short_name.clone(),
            category: copy_opt_text(&self.category),
            description: copy_opt_text(&self.description),
            disabled_flags: self.disabled_flags,
            internal: self.internal,
        }
    }
}

/// Whether a component with the given flags is left out of this frame's update, for an entity
/// with the given status (`None` when it has no status component, which counts as visible and
/// enabled).
pub open spec fn spec_skips_update(flags: DisabilityFlags, status: Option<EntityStatus>) -> bool {
    match status {
        None => false,
        Some(st) => flags != DisabilityFlags::Never && (st.disabled || (st.hidden && flags
            == DisabilityFlags::Hidden)),
    }
}

/// Whether a component with the given flags is left out of this frame's update; see
/// [`spec_skips_update`].
pub fn skips_update(flags: DisabilityFlags, status: Option<EntityStatus>) -> (r: bool)
    ensures
        r == spec_skips_update(flags, status),
{
    if flags != DisabilityFlags::Never {
        if let Some(st) = status {
            if st.disabled {
                return true;
            }
            if st.hidden && flags == DisabilityFlags::Hidden {
                return true;
            }
        }
    }
    false
}

/// The numeric id of a component type whose type hashes to `hash`: the hash itself, except
/// that zero (reserved for "no component") becomes one.
pub open spec fn spec_numeric_id(hash: u64) -> u64 {
    if hash == 0 {
        1
    } else {
        hash
    }
}

/// The numeric id of a component type from the hash of its type; see [`spec_numeric_id`].
pub fn numeric_id_from_hash(hash: u64) -> (r: u64)
    ensures
        r == spec_numeric_id(hash),
        r != 0,
{
    if hash == 0 {
        1
    } else {
        hash
    }
}

/// How an entity behaves in the physics simulation.
#[derive(Debug, Clone, Copy, PartialEq, Eq, Structural)]
pub enum RigidBodyMode {
    /// Fully simulated, affected by forces and contacts.
    Dynamic,
    /// Immovable.
    Fixed,
    /// Moved by setting its next position.
    KinematicPosition,
    /// Moved by setting its velocities.
    KinematicVelocity,
}

impl Default for RigidBodyMode {
    fn default() -> (r: Self)
        ensures
            r == RigidBodyMode::Dynamic,
    {
        RigidBodyMode::Dynamic
    }
}

/// Which axes are locked.
#[derive(Debug, Clone, Copy, PartialEq, Eq, Structural, Default)]
pub struct AxisLock {
    pub x: bool,
    pub y: bool,
    pub z: bool,
}

/// The shape of a collider.
#[derive(Debug, Clone, Copy, PartialEq, Eq, Structural, Hash)]
pub enum ColliderShapeType {
    Box,
    Sphere,
    Capsule,
    Cylinder,
    Cone,
}

impl ColliderShapeType {
    /// The display name of the shape.
    pub fn shape_type_name(&self) -> (r: &'static str)
        ensures
            r@ == match *self {
                ColliderShapeType::Box => "Box"@,
                ColliderShapeType::Sphere => "Sphere"@,
                ColliderShapeType::Capsule => "Capsule"@,
                ColliderShapeType::Cylinder => "Cylinder"@,
                ColliderShapeType::Cone => "Cone"@,
            },
    {
        match self {
            ColliderShapeType::Box => "Box",
            ColliderShapeType::Sphere => "Sphere",
            ColliderShapeType::Capsule => "Capsule",
            ColliderShapeType::Cylinder => "Cylinder",
            ColliderShapeType::Cone => "Cone",
        }
    }
}

/// A collider shape with its dimensions by their `f32` bit patterns, usable as a map key.
#[derive(Debug, Clone, Copy, PartialEq, Eq, Hash)]
pub enum ColliderShapeKey {
    Box { half_extents_bits: [u32; 3] },
    Sphere { radius_bits: u32 },
    Capsule { half_height_bits: u32, radius_bits: u32 },
    Cylinder { half_height_bits: u32, radius_bits: u32 },
    Cone { half_height_bits: u32, radius_bits: u32 },
}

impl ColliderShapeKey {
    /// The kind of shape the key stands for.
    pub fn shape_type(&self) -> (r: ColliderShapeType)
        ensures
            r == match *self {
                ColliderShapeKey::Box { .. } => ColliderShapeType::Box,
                ColliderShapeKey::Sphere { .. } => ColliderShapeType::Sphere,
                ColliderShapeKey::Capsule { .. } => ColliderShapeType::Capsule,
                ColliderShapeKey::Cylinder { .. } => ColliderShapeType::Cylinder,
                ColliderShapeKey::Cone { .. } => ColliderShapeType::Cone,
            },
    {
        match self {
            ColliderShapeKey::Box { .. } => ColliderShapeType::Box,
            ColliderShapeKey::Sphere { .. } => ColliderShapeType::Sphere,
            ColliderShapeKey::Capsule { .. } => ColliderShapeType::Capsule,
            ColliderShapeKey::Cylinder { .. } => ColliderShapeType::Cylinder,
            ColliderShapeKey::Cone { .. } => ColliderShapeType::Cone,
        }
    }
}

/// The kind of value a custom property holds.
#[derive(Debug, Clone, Copy, PartialEq, Eq, Structural)]
pub enum ValueType {
    String,
    Float,
    Int,
    Bool,
    Vec3,
}

/// How animation keyframes are interpolated.
#[derive(Debug, Clone, Copy, PartialEq, Eq, Structural)]
pub enum NAnimationInterpolation {
    Linear,
    Step,
    CubicSpline,
}

/// Log level, as the engine's JVM library names them.
#[derive(Debug, Clone, Copy, PartialEq, Eq, Structural)]
pub enum LogLevel {
    TRACE,
    DEBUG,
    INFO,
    WARN,
    ERROR,
}

impl Default for LogLevel {
    fn default() -> (r: Self)
        ensures
            r == LogLevel::INFO,
    {
        LogLevel::INFO
    }
}

impl LogLevel {
    /// The name of the level, which is also the name of the JVM enum constant.
    pub fn as_str(&self) -> (r: &'static str)
        ensures
            r@ == match *self {
                LogLevel::TRACE => "TRACE"@,
                LogLevel::DEBUG => "DEBUG"@,
                LogLevel::INFO => "INFO"@,
                LogLevel::WARN => "WARN"@,
                LogLevel::ERROR => "ERROR"@,
            },
    {
        match self {
            LogLevel::TRACE => "TRACE",
            LogLevel::DEBUG => "DEBUG",
            LogLevel::INFO => "INFO",
            LogLevel::WARN => "WARN",
            LogLevel::ERROR => "ERROR",
        }
    }
}

/// Groups the helpers that turn screen positions into world-space rays.
pub struct NormalisedDeviceCoordinates;

/// Groups the rendering helpers shared by the editor and the runtime.
pub struct RendererCommon;

/// Callbacks of components defined outside the engine.
#[derive(Debug)]
pub enum ComponentDefinedSomewhereElseCallbacks {
    /// Components defined on the JVM.
    JVM {},
    /// Components defined through a C interface.
    Native {},
}

} // verus!
