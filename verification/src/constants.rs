//! Numbers of the protocol: packet types, status codes, flags.

use vstd::prelude::*;

verus! {

// Bits of the mask that opens an attribute block.
pub const SSH_FILEXFER_ATTR_SIZE: u32 = 0x00000001;
pub const SSH_FILEXFER_ATTR_UIDGID: u32 = 0x00000002;
pub const SSH_FILEXFER_ATTR_PERMISSIONS: u32 = 0x00000004;
pub const SSH_FILEXFER_ATTR_ACCESSTIME: u32 = 0x00000008;
pub const SSH_FILEXFER_ATTR_CREATETIME: u32 = 0x00000010;
pub const SSH_FILEXFER_ATTR_MODIFYTIME: u32 = 0x00000020;
pub const SSH_FILEXFER_ATTR_ACL: u32 = 0x00000040;
pub const SSH_FILEXFER_ATTR_OWNERGROUP: u32 = 0x00000080;
pub const SSH_FILEXFER_ATTR_SUBSECOND_TIMES: u32 = 0x00000100;
pub const SSH_FILEXFER_ATTR_BITS: u32 = 0x00000200;
pub const SSH_FILEXFER_ATTR_ALLOCATION_SIZE: u32 = 0x00000400;
pub const SSH_FILEXFER_ATTR_TEXT_HINT: u32 = 0x00000800;
pub const SSH_FILEXFER_ATTR_MIME_TYPE: u32 = 0x00001000;
pub const SSH_FILEXFER_ATTR_LINK_COUNT: u32 = 0x00002000;
pub const SSH_FILEXFER_ATTR_UNTRANSLATED_NAME: u32 = 0x00004000;
pub const SSH_FILEXFER_ATTR_CTIME: u32 = 0x00008000;
pub const SSH_FILEXFER_ATTR_EXTENDED: u32 = 0x80000000;

// Values of the text hint.
pub const SSH_FILEXFER_ATTR_KNOWN_TEXT: u8 = 0x00;
pub const SSH_FILEXFER_ATTR_GUESSED_TEXT: u8 = 0x01;
pub const SSH_FILEXFER_ATTR_KNOWN_BINARY: u8 = 0x02;
pub const SSH_FILEXFER_ATTR_GUESSED_BINARY: u8 = 0x03;

// Values of the attribute bits.
pub const SSH_FILEXFER_ATTR_FLAGS_READONLY: u32 = 0x00000001;
pub const SSH_FILEXFER_ATTR_FLAGS_SYSTEM: u32 = 0x00000002;
pub const SSH_FILEXFER_ATTR_FLAGS_HIDDEN: u32 = 0x00000004;
pub const SSH_FILEXFER_ATTR_FLAGS_CASE_INSENSITIVE: u32 = 0x00000008;
pub const SSH_FILEXFER_ATTR_FLAGS_ARCHIVE: u32 = 0x00000010;
pub const SSH_FILEXFER_ATTR_FLAGS_ENCRYPTED: u32 = 0x00000020;
pub const SSH_FILEXFER_ATTR_FLAGS_COMPRESSED: u32 = 0x00000040;
pub const SSH_FILEXFER_ATTR_FLAGS_SPARSE: u32 = 0x00000080;
pub const SSH_FILEXFER_ATTR_FLAGS_APPEND_ONLY: u32 = 0x00000100;
pub const SSH_FILEXFER_ATTR_FLAGS_IMMUTABLE: u32 = 0x00000200;
pub const SSH_FILEXFER_ATTR_FLAGS_SYNC: u32 = 0x00000400;
pub const SSH_FILEXFER_ATTR_FLAGS_TRANSLATION_ERR: u32 = 0x00000800;

// File types.
pub const SSH_FILEXFER_TYPE_REGULAR: u8 = 1;
pub const SSH_FILEXFER_TYPE_DIRECTORY: u8 = 2;
pub const SSH_FILEXFER_TYPE_SYMLINK: u8 = 3;
pub const SSH_FILEXFER_TYPE_SPECIAL: u8 = 4;
pub const SSH_FILEXFER_TYPE_UNKNOWN: u8 = 5;
pub const SSH_FILEXFER_TYPE_SOCKET: u8 = 6;
pub const SSH_FILEXFER_TYPE_CHAR_DEVICE: u8 = 7;
pub const SSH_FILEXFER_TYPE_BLOCK_DEVICE: u8 = 8;
pub const SSH_FILEXFER_TYPE_FIFO: u8 = 9;

// Packet types.
pub const SSH_FXP_INIT: u8 = 1;
pub const SSH_FXP_VERSION: u8 = 2;
pub const SSH_FXP_OPEN: u8 = 3;
pub const SSH_FXP_CLOSE: u8 = 4;
pub const SSH_FXP_READ: u8 = 5;
pub const SSH_FXP_WRITE: u8 = 6;
pub const SSH_FXP_LSTAT: u8 = 7;
pub const SSH_FXP_FSTAT: u8 = 8;
pub const SSH_FXP_SETSTAT: u8 = 9;
pub const SSH_FXP_FSETSTAT: u8 = 10;
pub const SSH_FXP_OPENDIR: u8 = 11;
pub const SSH_FXP_READDIR: u8 = 12;
pub const SSH_FXP_REMOVE: u8 = 13;
pub const SSH_FXP_MKDIR: u8 = 14;
pub const SSH_FXP_RMDIR: u8 = 15;
pub const SSH_FXP_REALPATH: u8 = 16;
pub const SSH_FXP_STAT: u8 = 17;
pub const SSH_FXP_RENAME: u8 = 18;
pub const SSH_FXP_READLINK: u8 = 19;
pub const SSH_FXP_SYMLINK: u8 = 20;
pub const SSH_FXP_LINK: u8 = 21;
pub const SSH_FXP_BLOCK: u8 = 22;
pub const SSH_FXP_UNBLOCK: u8 = 23;
pub const SSH_FXP_STATUS: u8 = 101;
pub const SSH_FXP_HANDLE: u8 = 102;
pub const SSH_FXP_DATA: u8 = 103;
pub const SSH_FXP_NAME: u8 = 104;
pub const SSH_FXP_ATTRS: u8 = 105;
pub const SSH_FXP_EXTENDED: u8 = 200;
pub const SSH_FXP_EXTENDED_REPLY: u8 = 201;

// Status codes.
pub const SSH_FX_OK: u32 = 0;
pub const SSH_FX_EOF: u32 = 1;
pub const SSH_FX_NO_SUCH_FILE: u32 = 2;
pub const SSH_FX_PERMISSION_DENIED: u32 = 3;
pub const SSH_FX_FAILURE: u32 = 4;
pub const SSH_FX_BAD_MESSAGE: u32 = 5;
pub const SSH_FX_NO_CONNECTION: u32 = 6;
pub const SSH_FX_CONNECTION_LOST: u32 = 7;
pub const SSH_FX_OP_UNSUPPORTED: u32 = 8;
pub const SSH_FX_INVALID_HANDLE: u32 = 9;
pub const SSH_FX_NO_SUCH_PATH: u32 = 10;
pub const SSH_FX_FILE_ALREADY_EXISTS: u32 = 11;
pub const SSH_FX_WRITE_PROTECT: u32 = 12;
pub const SSH_FX_NO_MEDIA: u32 = 13;
pub const SSH_FX_NO_SPACE_ON_FILESYSTEM: u32 = 14;
pub const SSH_FX_QUOTA_EXCEEDED: u32 = 15;
pub const SSH_FX_UNKNOWN_PRINCIPAL: u32 = 16;
pub const SSH_FX_LOCK_CONFLICT: u32 = 17;
pub const SSH_FX_DIR_NOT_EMPTY: u32 = 18;
pub const SSH_FX_NOT_A_DIRECTORY: u32 = 19;
pub const SSH_FX_INVALID_FILENAME: u32 = 20;
pub const SSH_FX_LINK_LOOP: u32 = 21;
pub const SSH_FX_CANNOT_DELETE: u32 = 22;
pub const SSH_FX_INVALID_PARAMETER: u32 = 23;
pub const SSH_FX_FILE_IS_A_DIRECTORY: u32 = 24;
pub const SSH_FX_BYTE_RANGE_LOCK_CONFLICT: u32 = 25;
pub const SSH_FX_BYTE_RANGE_LOCK_REFUSED: u32 = 26;
pub const SSH_FX_DELETE_PENDING: u32 = 27;
pub const SSH_FX_FILE_CORRUPT: u32 = 28;
pub const SSH_FX_OWNER_INVALID: u32 = 29;
pub const SSH_FX_GROUP_INVALID: u32 = 30;
pub const SSH_FX_NO_MATCHING_BYTE_RANGE_LOCK: u32 = 31;

// Flags of an open request.
pub const SFTP_FLAG_READ: u32 = 0x00000001;
pub const SFTP_FLAG_WRITE: u32 = 0x00000002;
pub const SFTP_FLAG_APPEND: u32 = 0x00000004;
pub const SFTP_FLAG_CREAT: u32 = 0x00000008;
pub const SFTP_FLAG_TRUNC: u32 = 0x00000010;
pub const SFTP_FLAG_EXCL: u32 = 0x00000020;

// Flags of a rename request.
pub const SSH_FXF_RENAME_OVERWRITE: u32 = 0x00000001;
pub const SSH_FXF_RENAME_ATOMIC: u32 = 0x00000002;
pub const SSH_FXF_RENAME_NATIVE: u32 = 0x00000004;

// Access and disposition flags.
pub const SSH_FXF_ACCESS_DISPOSITION: u32 = 0x00000007;
pub const SSH_FXF_CREATE_NEW: u32 = 0x00000000;
pub const SSH_FXF_CREATE_TRUNCATE: u32 = 0x00000001;
pub const SSH_FXF_OPEN_EXISTING: u32 = 0x00000002;
pub const SSH_FXF_OPEN_OR_CREATE: u32 = 0x00000003;
pub const SSH_FXF_TRUNCATE_EXISTING: u32 = 0x00000004;
pub const SSH_FXF_APPEND_DATA: u32 = 0x00000008;
pub const SSH_FXF_APPEND_DATA_ATOMIC: u32 = 0x00000010;
pub const SSH_FXF_TEXT_MODE: u32 = 0x00000020;
pub const SSH_FXF_BLOCK_READ: u32 = 0x00000040;
pub const SSH_FXF_BLOCK_WRITE: u32 = 0x00000080;
pub const SSH_FXF_BLOCK_DELETE: u32 = 0x00000100;
pub const SSH_FXF_BLOCK_ADVISORY: u32 = 0x00000200;
pub const SSH_FXF_NOFOLLOW: u32 = 0x00000400;
pub const SSH_FXF_DELETE_ON_CLOSE: u32 = 0x00000800;
pub const SSH_FXF_ACCESS_AUDIT_ALARM_INFO: u32 = 0x00001000;
pub const SSH_FXF_ACCESS_BACKUP: u32 = 0x00002000;
pub const SSH_FXF_BACKUP_STREAM: u32 = 0x00004000;
pub const SSH_FXF_OVERRIDE_OWNER: u32 = 0x00008000;

} // verus!
