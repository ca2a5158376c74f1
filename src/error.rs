use vstd::prelude::*;

verus! {

/// Every way an operation of the registry can fail.
#[derive(Debug, PartialEq)]
pub enum ContractError {
    DeletedDeeplink { id: u64 },
    /// One endpoint is given and the other is absent.
    InvalidDeeplink { id: u64, from: String, to: String, type_: String },
    /// The link's type names no registered entry.
    TypeNotExists { type_: String },
    /// The link's source names no registered entry.
    FromNotExists { from: String },
    /// The link's target names no registered entry.
    ToNotExists { to: String },
    /// The endpoints' types do not meet the constraints of the link's type.
    TypeConflict {
        id: String,
        type_: String,
        from: String,
        to: String,
        expected_type: String,
        expected_from: String,
        expected_to: String,
        received_type: String,
        received_from: String,
        received_to: String,
    },
    /// A failure of the storage underneath, with its message.
    Std(String),
    /// The sender may not perform the operation.
    Unauthorized {},
    /// No visible link has this identifier: it was never created, or it was deleted.
    NotFound { id: u64 },
    /// The identifier counter is at its largest value.
    IdOverflow {},
    CannotMigrate { previous_contract: String },
    CannotMigrateVersion { previous_version: String },
    UnknownReplyId { id: u64 },
    SemVer(String),
}

/// `ContractError` with its text fields seen as character sequences.
pub enum ErrorView {
    DeletedDeeplink { id: u64 },
    InvalidDeeplink { id: u64, from: Seq<char>, to: Seq<char>, type_: Seq<char> },
    TypeNotExists { type_: Seq<char> },
    FromNotExists { from: Seq<char> },
    ToNotExists { to: Seq<char> },
    TypeConflict {
        id: Seq<char>,
        type_: Seq<char>,
        from: Seq<char>,
        to: Seq<char>,
        expected_type: Seq<char>,
        expected_from: Seq<char>,
        expected_to: Seq<char>,
        received_type: Seq<char>,
        received_from: Seq<char>,
        received_to: Seq<char>,
    },
    Std(Seq<char>),
    Unauthorized,
    NotFound { id: u64 },
    IdOverflow,
    CannotMigrate { previous_contract: Seq<char> },
    CannotMigrateVersion { previous_version: Seq<char> },
    UnknownReplyId { id: u64 },
    SemVer(Seq<char>),
}

impl View for ContractError {
    type V = ErrorView;

    open spec fn view(&self) -> ErrorView {
        match self {
            ContractError::DeletedDeeplink { id } => ErrorView::DeletedDeeplink { id: *id },
            ContractError::InvalidDeeplink { id, from, to, type_ } => ErrorView::InvalidDeeplink {
                id: *id,
                from: from@,
                to: to@,
                type_: type_@,
            },
            ContractError::TypeNotExists { type_ } => ErrorView::TypeNotExists { type_: type_@ },
            ContractError::FromNotExists { from } => ErrorView::FromNotExists { from: from@ },
            ContractError::ToNotExists { to } => ErrorView::ToNotExists { to: to@ },
            ContractError::TypeConflict {
                id,
                type_,
                from,
                to,
                expected_type,
                expected_from,
                expected_to,
                received_type,
                received_from,
                received_to,
            } => ErrorView::TypeConflict {
                id: id@,
                type_: type_@,
                from: from@,
                to: to@,
                expected_type: expected_type@,
                expected_from: expected_from@,
                expected_to: expected_to@,
                received_type: received_type@,
                received_from: received_from@,
                received_to: received_to@,
            },
            ContractError::Std(m) => ErrorView::Std(m@),
            ContractError::Unauthorized {  } => ErrorView::Unauthorized,
            ContractError::NotFound { id } => ErrorView::NotFound { id: *id },
            ContractError::IdOverflow {  } => ErrorView::IdOverflow,
            ContractError::CannotMigrate { previous_contract } => ErrorView::CannotMigrate {
                previous_contract: previous_contract@,
            },
            ContractError::CannotMigrateVersion { previous_version } =>
                ErrorView::CannotMigrateVersion { previous_version: previous_version@ },
            ContractError::UnknownReplyId { id } => ErrorView::UnknownReplyId { id: *id },
            ContractError::SemVer(m) => ErrorView::SemVer(m@),
        }
    }
}

/// A result with its error seen through `ErrorView`.
pub open spec fn result_view<T>(r: Result<T, ContractError>) -> Result<T, ErrorView> {
    match r {
        Ok(v) => Ok(v),
        Err(e) => Err(e@),
    }
}

} // verus!
