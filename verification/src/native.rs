//! Errors of the native scripting interface and the integer codes that cross the FFI boundary.
//!
//! Variants that carry a value of the JNI layer carry its text here.
use crate::text::push_str;
use vstd::prelude::*;

verus! {

/// The errors a native or JNI scripting call can report.
#[derive(Debug, Clone, PartialEq, Eq)]
pub enum DropbearNativeError {
    UnsignedGenericError,
    GenericError,
    Success,
    NullPointer,
    QueryFailed,
    EntityNotFound,
    NoSuchComponent,
    NoSuchEntity,
    WorldInsertError,
    SendError,
    CStringError,
    BufferTooSmall,
    PrematureSceneSwitch,
    GamepadNotFound,
    InvalidArgument,
    NoSuchHandle,
    JNIFailedToCreateObject,
    JNIFailedToGetField,
    JNIClassNotFound,
    JNIMethodNotFound,
    JNIUnwrapFailed,
    GenericAssetError,
    InvalidURI,
    AssetNotFound,
    InvalidHandle,
    PhysicsObjectNotFound,
    InvalidEnumOrdinal,
    MissingComponent,
    InvalidEntity,
    InvalidUTF8,
    UnknownError,
    WrongJValueType(String, String),
    InvalidCtorReturn,
    InvalidArgList(String),
    MethodNotFound { name: String, sig: String },
    FieldNotFound { name: String, sig: String },
    JavaException,
    JNIEnvMethodNotFound(String),
    NullPtr(String),
    NullDeref(String),
    TryLock,
    JavaVMMethodNotFound(String),
    FieldAlreadySet(String),
    ThrowFailed(i32),
    ParseFailed(String, String),
    JniCall(String),
}

/// The FFI return code of each error: zero for success, small negatives for engine errors,
/// codes from -200 down for errors of the JNI layer.
pub open spec fn error_code(e: DropbearNativeError) -> int {
    match e {
        DropbearNativeError::Success => 0,
        DropbearNativeError::UnsignedGenericError => 65535,
        DropbearNativeError::GenericError => 1,
        DropbearNativeError::NullPointer => -1,
        DropbearNativeError::QueryFailed => -2,
        DropbearNativeError::EntityNotFound => -3,
        DropbearNativeError::NoSuchComponent => -4,
        DropbearNativeError::NoSuchEntity => -5,
        DropbearNativeError::WorldInsertError => -6,
        DropbearNativeError::SendError => -7,
        DropbearNativeError::CStringError => -8,
        DropbearNativeError::BufferTooSmall => -9,
        DropbearNativeError::PrematureSceneSwitch => -10,
        DropbearNativeError::GamepadNotFound => -11,
        DropbearNativeError::InvalidArgument => -12,
        DropbearNativeError::NoSuchHandle => -13,
        DropbearNativeError::JNIFailedToCreateObject => -14,
        DropbearNativeError::JNIFailedToGetField => -15,
        DropbearNativeError::JNIClassNotFound => -16,
        DropbearNativeError::JNIMethodNotFound => -17,
        DropbearNativeError::JNIUnwrapFailed => -18,
        DropbearNativeError::GenericAssetError => -19,
        DropbearNativeError::InvalidURI => -20,
        DropbearNativeError::AssetNotFound => -21,
        DropbearNativeError::InvalidHandle => -22,
        DropbearNativeError::PhysicsObjectNotFound => -23,
        DropbearNativeError::InvalidEnumOrdinal => -24,
        DropbearNativeError::MissingComponent => -25,
        DropbearNativeError::InvalidEntity => -100,
        DropbearNativeError::InvalidUTF8 => -108,
        DropbearNativeError::UnknownError => -1274,
        DropbearNativeError::WrongJValueType(..) => -200,
        DropbearNativeError::InvalidCtorReturn => -201,
        DropbearNativeError::InvalidArgList(..) => -202,
        DropbearNativeError::MethodNotFound { .. } => -203,
        DropbearNativeError::FieldNotFound { .. } => -204,
        DropbearNativeError::JavaException => -205,
        DropbearNativeError::JNIEnvMethodNotFound(..) => -206,
        DropbearNativeError::NullPtr(..) => -207,
        DropbearNativeError::NullDeref(..) => -208,
        DropbearNativeError::TryLock => -209,
        DropbearNativeError::JavaVMMethodNotFound(..) => -210,
        DropbearNativeError::FieldAlreadySet(..) => -211,
        DropbearNativeError::ThrowFailed(..) => -212,
        DropbearNativeError::ParseFailed(..) => -213,
        DropbearNativeError::JniCall(..) => -214,
    }
}

impl DropbearNativeError {
    /// The FFI return code of this error; see [`error_code`].
    pub fn code(&self) -> (r: i32)
        ensures
            r == error_code(*self),
    {
        match self {
            DropbearNativeError::Success => 0,
            DropbearNativeError::UnsignedGenericError => 65535,
            DropbearNativeError::GenericError => 1,
            DropbearNativeError::NullPointer => -1,
            DropbearNativeError::QueryFailed => -2,
            DropbearNativeError::EntityNotFound => -3,
            DropbearNativeError::NoSuchComponent => -4,
            DropbearNativeError::NoSuchEntity => -5,
            DropbearNativeError::WorldInsertError => -6,
            DropbearNativeError::SendError => -7,
            DropbearNativeError::CStringError => -8,
            DropbearNativeError::BufferTooSmall => -9,
            DropbearNativeError::PrematureSceneSwitch => -10,
            DropbearNativeError::GamepadNotFound => -11,
            DropbearNativeError::InvalidArgument => -12,
            DropbearNativeError::NoSuchHandle => -13,
            DropbearNativeError::JNIFailedToCreateObject => -14,
            DropbearNativeError::JNIFailedToGetField => -15,
            DropbearNativeError::JNIClassNotFound => -16,
            DropbearNativeError::JNIMethodNotFound => -17,
            DropbearNativeError::JNIUnwrapFailed => -18,
            DropbearNativeError::GenericAssetError => -19,
            DropbearNativeError::InvalidURI => -20,
            DropbearNativeError::AssetNotFound => -21,
            DropbearNativeError::InvalidHandle => -22,
            DropbearNativeError::PhysicsObjectNotFound => -23,
            DropbearNativeError::InvalidEnumOrdinal => -24,
            DropbearNativeError::MissingComponent => -25,
            DropbearNativeError::InvalidEntity => -100,
            DropbearNativeError::InvalidUTF8 => -108,
            DropbearNativeError::UnknownError => -1274,
            DropbearNativeError::WrongJValueType(..) => -200,
            DropbearNativeError::InvalidCtorReturn => -201,
            DropbearNativeError::InvalidArgList(..) => -202,
            DropbearNativeError::MethodNotFound { .. } => -203,
            DropbearNativeError::FieldNotFound { .. } => -204,
            DropbearNativeError::JavaException => -205,
            DropbearNativeError::JNIEnvMethodNotFound(..) => -206,
            DropbearNativeError::NullPtr(..) => -207,
            DropbearNativeError::NullDeref(..) => -208,
            DropbearNativeError::TryLock => -209,
            DropbearNativeError::JavaVMMethodNotFound(..) => -210,
            DropbearNativeError::FieldAlreadySet(..) => -211,
            DropbearNativeError::ThrowFailed(..) => -212,
            DropbearNativeError::ParseFailed(..) => -213,
            DropbearNativeError::JniCall(..) => -214,
        }
    }
}

/// Law: only `Success` has the code zero, so a zero return code always means success.
pub proof fn law_zero_code_is_success(e: DropbearNativeError)
    ensures
        error_code(e) == 0 <==> e is Success,
{
}

/// The text of a failed native call: `"Native script {operation} failed ({detail})"`, where the
/// detail is `": "` and the library's last error message when it reported one, else empty.
pub open spec fn native_failure_text(operation: Seq<char>, last_error: Option<Seq<char>>) -> Seq<
    char,
> {
    let detail = match last_error {
        Some(m) => ": "@ + m,
        None => Seq::<char>::empty(),
    };
    "Native script "@ + operation + " failed ("@ + detail + ")"@
}

/// The outcome of a native script call from its return code: success for zero, otherwise a
/// failure whose text names the operation and the library's last error message, if any.
pub fn native_call_result(result: i32, operation: &str, last_error: Option<String>) -> (r: Result<
    (),
    String,
>)
    ensures
        r is Ok <==> result == 0,
        r matches Err(m) ==> m@ == native_failure_text(
            operation@,
            match last_error {
                Some(s) => Some(s@),
                None => None,
            },
        ),
{
    if result == 0 {
        return Ok(());
    }
    let mut m = "Native script ".to_owned();
    push_str(&mut m, operation);
    push_str(&mut m, " failed (");
    match &last_error {
        Some(e) => {
            push_str(&mut m, ": ");
            push_str(&mut m, e.as_str());
        },
        None => {},
    }
    push_str(&mut m, ")");
    proof {
        let detail = match last_error {
            Some(s) => ": "@ + s@,
            None => Seq::<char>::empty(),
        };
        assert(m@ =~= "Native script "@ + operation@ + " failed ("@ + detail + ")"@);
    }
    Err(m)
}

} // verus!
