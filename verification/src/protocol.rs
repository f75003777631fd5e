//! Low-level implementation of the PostgreSQL protocol.
//!
//! This module implements receiving and deserialization of backend
//! messages, as well as the message flows that precede normal queries:
//! the SSL-request pre-exchange and the start-up conversation.

pub mod backend_message;
pub mod frontend_message;
pub mod read_backend_message;
pub mod receiver;
pub mod ssl_session_encryption;
pub mod startup;

pub use self::backend_message::BackendMessage;
pub use self::backend_message::BackendMessageModel;
pub use self::backend_message::Int16Array;
pub use self::backend_message::Int32Array;
pub use self::backend_message::StringArray;
pub use self::backend_message::ErrorNoticeField;
pub use self::backend_message::ErrorNoticeFieldArray;
pub use self::backend_message::DataRowColumnValueArray;
pub use self::backend_message::RowDescriptionField;
pub use self::backend_message::RowDescriptionFieldArray;
pub use self::frontend_message::write_int32_u32;
pub use self::frontend_message::write_string_slice;
pub use self::receiver::Receiver;
pub use self::receiver::NoticeSink;
pub use self::receiver::NoticeCollector;
pub use self::ssl_session_encryption::ssl_session_encryption;
pub use self::startup::startup;
pub use self::startup::StartupInfo;
pub use self::startup::ParamMap;
