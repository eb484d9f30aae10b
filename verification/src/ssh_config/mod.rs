//! Configuration blocks and the stages that resolve them.

pub mod entries;
pub mod host;
pub mod laws;
pub mod pattern;
pub mod stages;

pub use host::HostVecExt;

use vstd::prelude::*;

verus! {

/// The configuration keywords that a block entry can carry.
///
/// The resolution stages give a meaning to `Hostname`, `User`, `Port`,
/// `ProxyCommand` and `LocalForward`; every other keyword is carried along
/// unchanged.
#[allow(clippy::upper_case_acronyms)]
#[derive(Clone, Copy, Debug, PartialEq, Eq, Structural, Hash)]
pub enum EntryType {
    Hostname,
    User,
    Port,
    ProxyCommand,
    LocalForward,
    AddKeysToAgent,
    AddressFamily,
    BatchMode,
    BindAddress,
    BindInterface,
    CanonicalDomains,
    CanonicalizeFallbackLocal,
    CanonicalizeHostname,
    CanonicalizeMaxDots,
    CanonicalizePermittedCNAMEs,
    CASignatureAlgorithms,
    CertificateFile,
    ChannelTimeout,
    CheckHostIP,
    Ciphers,
    ClearAllForwardings,
    Compression,
    ConnectionAttempts,
    ConnectTimeout,
    ControlMaster,
    ControlPath,
    ControlPersist,
    DynamicForward,
    EnableEscapeCommandline,
    EnableSSHKeysign,
    EscapeChar,
    ExitOnForwardFailure,
    FingerprintHash,
    ForkAfterAuthentication,
    ForwardAgent,
    ForwardX11,
    ForwardX11Timeout,
    ForwardX11Trusted,
    GatewayPorts,
    GlobalKnownHostsFile,
    GSSAPIAuthentication,
    GSSAPIDelegateCredentials,
    HashKnownHosts,
    HostbasedAcceptedAlgorithms,
    HostbasedAuthentication,
    HostKeyAlgorithms,
    HostKeyAlias,
    IdentitiesOnly,
    IdentityAgent,
    IdentityFile,
    IgnoreUnknown,
    IPQoS,
    KbdInteractiveAuthentication,
    KbdInteractiveDevices,
    KexAlgorithms,
    KnownHostsCommand,
    LocalCommand,
    LogLevel,
    LogVerbose,
    MACs,
    NoHostAuthenticationForLocalhost,
    NumberOfPasswordPrompts,
    ObscureKeystrokeTiming,
    PasswordAuthentication,
    PermitLocalCommand,
    PermitRemoteOpen,
    PKCS11Provider,
    PreferredAuthentications,
    ProxyJump,
    ProxyUseFdpass,
    PubkeyAcceptedAlgorithms,
    PubkeyAuthentication,
    RekeyLimit,
    RemoteCommand,
    RemoteForward,
    RequestTTY,
    RequiredRSASize,
    RevokedHostKeys,
    SecurityKeyProvider,
    SendEnv,
    ServerAliveCountMax,
    ServerAliveInterval,
    SessionType,
    SetEnv,
    StdinNull,
    StreamLocalBindMask,
    StreamLocalBindUnlink,
    StrictHostKeyChecking,
    SyslogFacility,
    TCPKeepAlive,
    Tag,
    Tunnel,
    TunnelDevice,
    UpdateHostKeys,
    UserKnownHostsFile,
    VerifyHostKeyDNS,
    VisualHostKey,
    XAuthLocation,
}

/// How many keywords there are; every code is below this number.
pub const ENTRY_TYPE_COUNT: u8 = 98;

impl EntryType {
    /// The position of the keyword in the declaration, counted from zero.
    /// Different keywords have different codes.
    pub open spec fn code_spec(self) -> u8 {
        match self {
            EntryType::Hostname => 0u8,
            EntryType::User => 1u8,
            EntryType::Port => 2u8,
            EntryType::ProxyCommand => 3u8,
            EntryType::LocalForward => 4u8,
            EntryType::AddKeysToAgent => 5u8,
            EntryType::AddressFamily => 6u8,
            EntryType::BatchMode => 7u8,
            EntryType::BindAddress => 8u8,
            EntryType::BindInterface => 9u8,
            EntryType::CanonicalDomains => 10u8,
            EntryType::CanonicalizeFallbackLocal => 11u8,
            EntryType::CanonicalizeHostname => 12u8,
            EntryType::CanonicalizeMaxDots => 13u8,
            EntryType::CanonicalizePermittedCNAMEs => 14u8,
            EntryType::CASignatureAlgorithms => 15u8,
            EntryType::CertificateFile => 16u8,
            EntryType::ChannelTimeout => 17u8,
            EntryType::CheckHostIP => 18u8,
            EntryType::Ciphers => 19u8,
            EntryType::ClearAllForwardings => 20u8,
            EntryType::Compression => 21u8,
            EntryType::ConnectionAttempts => 22u8,
            EntryType::ConnectTimeout => 23u8,
            EntryType::ControlMaster => 24u8,
            EntryType::ControlPath => 25u8,
            EntryType::ControlPersist => 26u8,
            EntryType::DynamicForward => 27u8,
            EntryType::EnableEscapeCommandline => 28u8,
            EntryType::EnableSSHKeysign => 29u8,
            EntryType::EscapeChar => 30u8,
            EntryType::ExitOnForwardFailure => 31u8,
            EntryType::FingerprintHash => 32u8,
            EntryType::ForkAfterAuthentication => 33u8,
            EntryType::ForwardAgent => 34u8,
            EntryType::ForwardX11 => 35u8,
            EntryType::ForwardX11Timeout => 36u8,
            EntryType::ForwardX11Trusted => 37u8,
            EntryType::GatewayPorts => 38u8,
            EntryType::GlobalKnownHostsFile => 39u8,
            EntryType::GSSAPIAuthentication => 40u8,
            EntryType::GSSAPIDelegateCredentials => 41u8,
            EntryType::HashKnownHosts => 42u8,
            EntryType::HostbasedAcceptedAlgorithms => 43u8,
            EntryType::HostbasedAuthentication => 44u8,
            EntryType::HostKeyAlgorithms => 45u8,
            EntryType::HostKeyAlias => 46u8,
            EntryType::IdentitiesOnly => 47u8,
            EntryType::IdentityAgent => 48u8,
            EntryType::IdentityFile => 49u8,
            EntryType::IgnoreUnknown => 50u8,
            EntryType::IPQoS => 51u8,
            EntryType::KbdInteractiveAuthentication => 52u8,
            EntryType::KbdInteractiveDevices => 53u8,
            EntryType::KexAlgorithms => 54u8,
            EntryType::KnownHostsCommand => 55u8,
            EntryType::LocalCommand => 56u8,
            EntryType::LogLevel => 57u8,
            EntryType::LogVerbose => 58u8,
            EntryType::MACs => 59u8,
            EntryType::NoHostAuthenticationForLocalhost => 60u8,
            EntryType::NumberOfPasswordPrompts => 61u8,
            EntryType::ObscureKeystrokeTiming => 62u8,
            EntryType::PasswordAuthentication => 63u8,
            EntryType::PermitLocalCommand => 64u8,
            EntryType::PermitRemoteOpen => 65u8,
            EntryType::PKCS11Provider => 66u8,
            EntryType::PreferredAuthentications => 67u8,
            EntryType::ProxyJump => 68u8,
            EntryType::ProxyUseFdpass => 69u8,
            EntryType::PubkeyAcceptedAlgorithms => 70u8,
            EntryType::PubkeyAuthentication => 71u8,
            EntryType::RekeyLimit => 72u8,
            EntryType::RemoteCommand => 73u8,
            EntryType::RemoteForward => 74u8,
            EntryType::RequestTTY => 75u8,
            EntryType::RequiredRSASize => 76u8,
            EntryType::RevokedHostKeys => 77u8,
            EntryType::SecurityKeyProvider => 78u8,
            EntryType::SendEnv => 79u8,
            EntryType::ServerAliveCountMax => 80u8,
            EntryType::ServerAliveInterval => 81u8,
            EntryType::SessionType => 82u8,
            EntryType::SetEnv => 83u8,
            EntryType::StdinNull => 84u8,
            EntryType::StreamLocalBindMask => 85u8,
            EntryType::StreamLocalBindUnlink => 86u8,
            EntryType::StrictHostKeyChecking => 87u8,
            EntryType::SyslogFacility => 88u8,
            EntryType::TCPKeepAlive => 89u8,
            EntryType::Tag => 90u8,
            EntryType::Tunnel => 91u8,
            EntryType::TunnelDevice => 92u8,
            EntryType::UpdateHostKeys => 93u8,
            EntryType::UserKnownHostsFile => 94u8,
            EntryType::VerifyHostKeyDNS => 95u8,
            EntryType::VisualHostKey => 96u8,
            EntryType::XAuthLocation => 97u8,
        }
    }

    /// The keyword that has the given code; `Hostname` stands in for a
    /// number that is no code.
    pub open spec fn of_code(code: u8) -> EntryType {
        if code == 1u8 {
            EntryType::User
        } else if code == 2u8 {
            EntryType::Port
        } else if code == 3u8 {
            EntryType::ProxyCommand
        } else if code == 4u8 {
            EntryType::LocalForward
        } else if code == 5u8 {
            EntryType::AddKeysToAgent
        } else if code == 6u8 {
            EntryType::AddressFamily
        } else if code == 7u8 {
            EntryType::BatchMode
        } else if code == 8u8 {
            EntryType::BindAddress
        } else if code == 9u8 {
            EntryType::BindInterface
        } else if code == 10u8 {
            EntryType::CanonicalDomains
        } else if code == 11u8 {
            EntryType::CanonicalizeFallbackLocal
        } else if code == 12u8 {
            EntryType::CanonicalizeHostname
        } else if code == 13u8 {
            EntryType::CanonicalizeMaxDots
        } else if code == 14u8 {
            EntryType::CanonicalizePermittedCNAMEs
        } else if code == 15u8 {
            EntryType::CASignatureAlgorithms
        } else if code == 16u8 {
            EntryType::CertificateFile
        } else if code == 17u8 {
            EntryType::ChannelTimeout
        } else if code == 18u8 {
            EntryType::CheckHostIP
        } else if code == 19u8 {
            EntryType::Ciphers
        } else if code == 20u8 {
            EntryType::ClearAllForwardings
        } else if code == 21u8 {
            EntryType::Compression
        } else if code == 22u8 {
            EntryType::ConnectionAttempts
        } else if code == 23u8 {
            EntryType::ConnectTimeout
        } else if code == 24u8 {
            EntryType::ControlMaster
        } else if code == 25u8 {
            EntryType::ControlPath
        } else if code == 26u8 {
            EntryType::ControlPersist
        } else if code == 27u8 {
            EntryType::DynamicForward
        } else if code == 28u8 {
            EntryType::EnableEscapeCommandline
        } else if code == 29u8 {
            EntryType::EnableSSHKeysign
        } else if code == 30u8 {
            EntryType::EscapeChar
        } else if code == 31u8 {
            EntryType::ExitOnForwardFailure
        } else if code == 32u8 {
            EntryType::FingerprintHash
        } else if code == 33u8 {
            EntryType::ForkAfterAuthentication
        } else if code == 34u8 {
            EntryType::ForwardAgent
        } else if code == 35u8 {
            EntryType::ForwardX11
        } else if code == 36u8 {
            EntryType::ForwardX11Timeout
        } else if code == 37u8 {
            EntryType::ForwardX11Trusted
        } else if code == 38u8 {
            EntryType::GatewayPorts
        } else if code == 39u8 {
            EntryType::GlobalKnownHostsFile
        } else if code == 40u8 {
            EntryType::GSSAPIAuthentication
        } else if code == 41u8 {
            EntryType::GSSAPIDelegateCredentials
        } else if code == 42u8 {
            EntryType::HashKnownHosts
        } else if code == 43u8 {
            EntryType::HostbasedAcceptedAlgorithms
        } else if code == 44u8 {
            EntryType::HostbasedAuthentication
        } else if code == 45u8 {
            EntryType::HostKeyAlgorithms
        } else if code == 46u8 {
            EntryType::HostKeyAlias
        } else if code == 47u8 {
            EntryType::IdentitiesOnly
        } else if code == 48u8 {
            EntryType::IdentityAgent
        } else if code == 49u8 {
            EntryType::IdentityFile
        } else if code == 50u8 {
            EntryType::IgnoreUnknown
        } else if code == 51u8 {
            EntryType::IPQoS
        } else if code == 52u8 {
            EntryType::KbdInteractiveAuthentication
        } else if code == 53u8 {
            EntryType::KbdInteractiveDevices
        } else if code == 54u8 {
            EntryType::KexAlgorithms
        } else if code == 55u8 {
            EntryType::KnownHostsCommand
        } else if code == 56u8 {
            EntryType::LocalCommand
        } else if code == 57u8 {
            EntryType::LogLevel
        } else if code == 58u8 {
            EntryType::LogVerbose
        } else if code == 59u8 {
            EntryType::MACs
        } else if code == 60u8 {
            EntryType::NoHostAuthenticationForLocalhost
        } else if code == 61u8 {
            EntryType::NumberOfPasswordPrompts
        } else if code == 62u8 {
            EntryType::ObscureKeystrokeTiming
        } else if code == 63u8 {
            EntryType::PasswordAuthentication
        } else if code == 64u8 {
            EntryType::PermitLocalCommand
        } else if code == 65u8 {
            EntryType::PermitRemoteOpen
        } else if code == 66u8 {
            EntryType::PKCS11Provider
        } else if code == 67u8 {
            EntryType::PreferredAuthentications
        } else if code == 68u8 {
            EntryType::ProxyJump
        } else if code == 69u8 {
            EntryType::ProxyUseFdpass
        } else if code == 70u8 {
            EntryType::PubkeyAcceptedAlgorithms
        } else if code == 71u8 {
            EntryType::PubkeyAuthentication
        } else if code == 72u8 {
            EntryType::RekeyLimit
        } else if code == 73u8 {
            EntryType::RemoteCommand
        } else if code == 74u8 {
            EntryType::RemoteForward
        } else if code == 75u8 {
            EntryType::RequestTTY
        } else if code == 76u8 {
            EntryType::RequiredRSASize
        } else if code == 77u8 {
            EntryType::RevokedHostKeys
        } else if code == 78u8 {
            EntryType::SecurityKeyProvider
        } else if code == 79u8 {
            EntryType::SendEnv
        } else if code == 80u8 {
            EntryType::ServerAliveCountMax
        } else if code == 81u8 {
            EntryType::ServerAliveInterval
        } else if code == 82u8 {
            EntryType::SessionType
        } else if code == 83u8 {
            EntryType::SetEnv
        } else if code == 84u8 {
            EntryType::StdinNull
        } else if code == 85u8 {
            EntryType::StreamLocalBindMask
        } else if code == 86u8 {
            EntryType::StreamLocalBindUnlink
        } else if code == 87u8 {
            EntryType::StrictHostKeyChecking
        } else if code == 88u8 {
            EntryType::SyslogFacility
        } else if code == 89u8 {
            EntryType::TCPKeepAlive
        } else if code == 90u8 {
            EntryType::Tag
        } else if code == 91u8 {
            EntryType::Tunnel
        } else if code == 92u8 {
            EntryType::TunnelDevice
        } else if code == 93u8 {
            EntryType::UpdateHostKeys
        } else if code == 94u8 {
            EntryType::UserKnownHostsFile
        } else if code == 95u8 {
            EntryType::VerifyHostKeyDNS
        } else if code == 96u8 {
            EntryType::VisualHostKey
        } else if code == 97u8 {
            EntryType::XAuthLocation
        } else {
            EntryType::Hostname
        }
    }

    /// The code of the keyword.
    #[verifier::when_used_as_spec(code_spec)]
    pub fn code(self) -> (c: u8)
        ensures
            c == self.code_spec(),
            c < ENTRY_TYPE_COUNT,
    {
        match self {
            EntryType::Hostname => 0u8,
            EntryType::User => 1u8,
            EntryType::Port => 2u8,
            EntryType::ProxyCommand => 3u8,
            EntryType::LocalForward => 4u8,
            EntryType::AddKeysToAgent => 5u8,
            EntryType::AddressFamily => 6u8,
            EntryType::BatchMode => 7u8,
            EntryType::BindAddress => 8u8,
            EntryType::BindInterface => 9u8,
            EntryType::CanonicalDomains => 10u8,
            EntryType::CanonicalizeFallbackLocal => 11u8,
            EntryType::CanonicalizeHostname => 12u8,
            EntryType::CanonicalizeMaxDots => 13u8,
            EntryType::CanonicalizePermittedCNAMEs => 14u8,
            EntryType::CASignatureAlgorithms => 15u8,
            EntryType::CertificateFile => 16u8,
            EntryType::ChannelTimeout => 17u8,
            EntryType::CheckHostIP => 18u8,
            EntryType::Ciphers => 19u8,
            EntryType::ClearAllForwardings => 20u8,
            EntryType::Compression => 21u8,
            EntryType::ConnectionAttempts => 22u8,
            EntryType::ConnectTimeout => 23u8,
            EntryType::ControlMaster => 24u8,
            EntryType::ControlPath => 25u8,
            EntryType::ControlPersist => 26u8,
            EntryType::DynamicForward => 27u8,
            EntryType::EnableEscapeCommandline => 28u8,
            EntryType::EnableSSHKeysign => 29u8,
            EntryType::EscapeChar => 30u8,
            EntryType::ExitOnForwardFailure => 31u8,
            EntryType::FingerprintHash => 32u8,
            EntryType::ForkAfterAuthentication => 33u8,
            EntryType::ForwardAgent => 34u8,
            EntryType::ForwardX11 => 35u8,
            EntryType::ForwardX11Timeout => 36u8,
            EntryType::ForwardX11Trusted => 37u8,
            EntryType::GatewayPorts => 38u8,
            EntryType::GlobalKnownHostsFile => 39u8,
            EntryType::GSSAPIAuthentication => 40u8,
            EntryType::GSSAPIDelegateCredentials => 41u8,
            EntryType::HashKnownHosts => 42u8,
            EntryType::HostbasedAcceptedAlgorithms => 43u8,
            EntryType::HostbasedAuthentication => 44u8,
            EntryType::HostKeyAlgorithms => 45u8,
            EntryType::HostKeyAlias => 46u8,
            EntryType::IdentitiesOnly => 47u8,
            EntryType::IdentityAgent => 48u8,
            EntryType::IdentityFile => 49u8,
            EntryType::IgnoreUnknown => 50u8,
            EntryType::IPQoS => 51u8,
            EntryType::KbdInteractiveAuthentication => 52u8,
            EntryType::KbdInteractiveDevices => 53u8,
            EntryType::KexAlgorithms => 54u8,
            EntryType::KnownHostsCommand => 55u8,
            EntryType::LocalCommand => 56u8,
            EntryType::LogLevel => 57u8,
            EntryType::LogVerbose => 58u8,
            EntryType::MACs => 59u8,
            EntryType::NoHostAuthenticationForLocalhost => 60u8,
            EntryType::NumberOfPasswordPrompts => 61u8,
            EntryType::ObscureKeystrokeTiming => 62u8,
            EntryType::PasswordAuthentication => 63u8,
            EntryType::PermitLocalCommand => 64u8,
            EntryType::PermitRemoteOpen => 65u8,
            EntryType::PKCS11Provider => 66u8,
            EntryType::PreferredAuthentications => 67u8,
            EntryType::ProxyJump => 68u8,
            EntryType::ProxyUseFdpass => 69u8,
            EntryType::PubkeyAcceptedAlgorithms => 70u8,
            EntryType::PubkeyAuthentication => 71u8,
            EntryType::RekeyLimit => 72u8,
            EntryType::RemoteCommand => 73u8,
            EntryType::RemoteForward => 74u8,
            EntryType::RequestTTY => 75u8,
            EntryType::RequiredRSASize => 76u8,
            EntryType::RevokedHostKeys => 77u8,
            EntryType::SecurityKeyProvider => 78u8,
            EntryType::SendEnv => 79u8,
            EntryType::ServerAliveCountMax => 80u8,
            EntryType::ServerAliveInterval => 81u8,
            EntryType::SessionType => 82u8,
            EntryType::SetEnv => 83u8,
            EntryType::StdinNull => 84u8,
            EntryType::StreamLocalBindMask => 85u8,
            EntryType::StreamLocalBindUnlink => 86u8,
            EntryType::StrictHostKeyChecking => 87u8,
            EntryType::SyslogFacility => 88u8,
            EntryType::TCPKeepAlive => 89u8,
            EntryType::Tag => 90u8,
            EntryType::Tunnel => 91u8,
            EntryType::TunnelDevice => 92u8,
            EntryType::UpdateHostKeys => 93u8,
            EntryType::UserKnownHostsFile => 94u8,
            EntryType::VerifyHostKeyDNS => 95u8,
            EntryType::VisualHostKey => 96u8,
            EntryType::XAuthLocation => 97u8,
        }
    }

    /// Codes and keywords correspond one to one.
    pub proof fn code_round_trip(self)
        ensures
            self.code_spec() < ENTRY_TYPE_COUNT,
            EntryType::of_code(self.code_spec()) == self,
    {
    }

    /// Every number below the count is the code of its keyword.
    pub proof fn of_code_round_trip(code: u8)
        requires
            code < ENTRY_TYPE_COUNT,
        ensures
            EntryType::of_code(code).code_spec() == code,
    {
    }
}

} // verus!
