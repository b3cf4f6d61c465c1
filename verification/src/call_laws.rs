//! What the functions of the library do, said of their calls.
//!
//! `call_ensures` holds of a function, its arguments and what it returned. What
//! is said here holds of every call that returns, by the contract alone.

use vstd::prelude::*;
use vstd::utf8::encode_utf8;

use crate::async_client::{
    after_packet, awaiting, cancelled, lost_reply, packet_action, read_length, AsyncSftpClient,
    AsyncView, ReadAction, ReadActionView, ReadEvent,
};
use crate::attributes::{decode_attributes, encode_attributes, pair_texts, Attributes, Fault};
use crate::command::{
    command_line, interpret, last_operand, line_command, opt_view, parse_ls_args, texts,
    wants_long, Command, CommandView,
};
use crate::error::{as_io_error, Error, ErrorView, IoError, IoErrorKind, IoErrorView};
use crate::layout_laws::{
    law_flags_are_sent_as_given, law_packet_layout, law_path_resolution_layout,
};
use crate::listing::{
    attr_lines, describe, format_long, is_dir, is_directory, list_entries, listing_lines,
    long_line, name_not_after,
};
use crate::listing_laws::law_first_difference_decides;
use crate::protocol::{
    opt_chars, packet, packet_length, parse_packet, read_raw_packet, realpath_body,
    write_raw_packet, Framing,
};
use crate::reply::{
    attrs_answer, data_answer, entry_views, extended_answer, first_name_answer, handle_answer,
    readdir_answer, status_answer, Answer, AnswerView, Breach,
};
use crate::shell::{Job, Shell};
use crate::stage::{Action, ActionView, Event, EventView, Failure, FailureView, Stage};
use crate::steps::{job_of, name_fits, next_step, resolved};
use crate::sync::{
    advanced, handshake, issued, AttrsCall, DataCall, DirectoryCall, ExtendedCall, FileCall,
    ListingCall, NameCall, Request, SeekCall, SessionView, SftpClient, StatusCall,
};
use crate::types::{switched, Directory, File, OpenOptions};
use crate::wire::{be32, be64, bytes_field, from_be32, law_be32_round_trip, str_field, Cursor};

verus! {

// Requests of the clients.

/// What a client does for a request: the packet that comes out is the request
/// of this command with this body, and the next request takes the next id.
pub open spec fn requests(
    before: SessionView,
    after: SessionView,
    request: Request,
    cmd: u8,
    body: Seq<u8>,
) -> bool {
    &&& request@ == issued(before, cmd, body)
    &&& after == advanced(before)
}

/// What a client does for a request for whose reply somebody waits.
pub open spec fn requests_for<T>(
    before: AsyncView<T>,
    after: AsyncView<T>,
    waiter: T,
    request: Request,
    cmd: u8,
    body: Seq<u8>,
) -> bool {
    &&& request@ == issued(before.session, cmd, body)
    &&& after == awaiting(before, waiter)
}

/// `mkdir` sends the path and the attributes.
#[verifier::spinoff_prover]
pub proof fn law_call_mkdir<T>()
    ensures
        forall|c: &mut SftpClient, path: &str, attr: &Attributes, call: StatusCall| #[trigger]
            call_ensures(SftpClient::mkdir, (c, path, attr), call) ==> requests(
                (*c)@,
                (*final(c))@,
                call.request,
                14,
                str_field(path@) + encode_attributes(attr@),
            ),
        forall|
            c: &mut AsyncSftpClient<T>,
            path: &str,
            attr: &Attributes,
            waiter: T,
            call: StatusCall,
        | #[trigger]
            call_ensures(
                AsyncSftpClient::<T>::mkdir,
                (c, path, attr, waiter),
                call,
            ) ==> requests_for(
                (*c)@,
                (*final(c))@,
                waiter,
                call.request,
                14,
                str_field(path@) + encode_attributes(attr@),
            ),
{
}

/// `rmdir` sends the path.
#[verifier::spinoff_prover]
pub proof fn law_call_rmdir<T>()
    ensures
        forall|c: &mut SftpClient, path: &str, call: StatusCall| #[trigger]
            call_ensures(SftpClient::rmdir, (c, path), call) ==> requests(
                (*c)@,
                (*final(c))@,
                call.request,
                15,
                str_field(path@),
            ),
        forall|c: &mut AsyncSftpClient<T>, path: &str, waiter: T, call: StatusCall| #[trigger]
            call_ensures(AsyncSftpClient::<T>::rmdir, (c, path, waiter), call) ==> requests_for(
                (*c)@,
                (*final(c))@,
                waiter,
                call.request,
                15,
                str_field(path@),
            ),
{
}

/// `readlink` sends the path.
#[verifier::spinoff_prover]
pub proof fn law_call_readlink<T>()
    ensures
        forall|c: &mut SftpClient, path: &str, call: NameCall| #[trigger]
            call_ensures(SftpClient::readlink, (c, path), call) ==> requests(
                (*c)@,
                (*final(c))@,
                call.request,
                19,
                str_field(path@),
            ),
        forall|c: &mut AsyncSftpClient<T>, path: &str, waiter: T, call: NameCall| #[trigger]
            call_ensures(AsyncSftpClient::<T>::readlink, (c, path, waiter), call) ==> requests_for(
                (*c)@,
                (*final(c))@,
                waiter,
                call.request,
                19,
                str_field(path@),
            ),
{
}

/// `symlink` sends the link and then its target.
#[verifier::spinoff_prover]
pub proof fn law_call_symlink<T>()
    ensures
        forall|c: &mut SftpClient, path: &str, target: &str, call: StatusCall| #[trigger]
            call_ensures(SftpClient::symlink, (c, path, target), call) ==> requests(
                (*c)@,
                (*final(c))@,
                call.request,
                20,
                str_field(path@) + str_field(target@),
            ),
        forall|
            c: &mut AsyncSftpClient<T>,
            path: &str,
            target: &str,
            waiter: T,
            call: StatusCall,
        | #[trigger]
            call_ensures(
                AsyncSftpClient::<T>::symlink,
                (c, path, target, waiter),
                call,
            ) ==> requests_for(
                (*c)@,
                (*final(c))@,
                waiter,
                call.request,
                20,
                str_field(path@) + str_field(target@),
            ),
{
}

/// `hardlink` sends the link, its target and a zero.
#[verifier::spinoff_prover]
pub proof fn law_call_hardlink<T>()
    ensures
        forall|c: &mut SftpClient, path: &str, target: &str, call: StatusCall| #[trigger]
            call_ensures(SftpClient::hardlink, (c, path, target), call) ==> requests(
                (*c)@,
                (*final(c))@,
                call.request,
                21,
                str_field(path@) + str_field(target@) + seq![0u8],
            ),
        forall|
            c: &mut AsyncSftpClient<T>,
            path: &str,
            target: &str,
            waiter: T,
            call: StatusCall,
        | #[trigger]
            call_ensures(
                AsyncSftpClient::<T>::hardlink,
                (c, path, target, waiter),
                call,
            ) ==> requests_for(
                (*c)@,
                (*final(c))@,
                waiter,
                call.request,
                21,
                str_field(path@) + str_field(target@) + seq![0u8],
            ),
{
}

/// `link` sends the link, its target, and whether it is symbolic.
#[verifier::spinoff_prover]
pub proof fn law_call_link<T>()
    ensures
        forall|
            c: &mut SftpClient,
            path: &str,
            target: &str,
            symlink: bool,
            call: StatusCall,
        | #[trigger]
            call_ensures(SftpClient::link, (c, path, target, symlink), call) ==> requests(
                (*c)@,
                (*final(c))@,
                call.request,
                21,
                str_field(path@) + str_field(target@) + seq![if symlink { 1u8 } else { 0u8 }],
            ),
        forall|
            c: &mut AsyncSftpClient<T>,
            path: &str,
            target: &str,
            symlink: bool,
            waiter: T,
            call: StatusCall,
        | #[trigger]
            call_ensures(
                AsyncSftpClient::<T>::link,
                (c, path, target, symlink, waiter),
                call,
            ) ==> requests_for(
                (*c)@,
                (*final(c))@,
                waiter,
                call.request,
                21,
                str_field(path@) + str_field(target@) + seq![if symlink { 1u8 } else { 0u8 }],
            ),
{
}

/// `open` sends the path, the flags and the attributes.
#[verifier::spinoff_prover]
pub proof fn law_call_open<T>()
    ensures
        forall|
            c: &mut SftpClient,
            path: &str,
            options: OpenOptions,
            attr: &Attributes,
            call: FileCall,
        | #[trigger]
            call_ensures(SftpClient::open, (c, path, options, attr), call) ==> requests(
                (*c)@,
                (*final(c))@,
                call.request,
                3,
                str_field(path@) + be32(options@) + encode_attributes(attr@),
            ),
        forall|
            c: &mut AsyncSftpClient<T>,
            path: &str,
            options: OpenOptions,
            attr: &Attributes,
            waiter: T,
            call: FileCall,
        | #[trigger]
            call_ensures(
                AsyncSftpClient::<T>::open,
                (c, path, options, attr, waiter),
                call,
            ) ==> requests_for(
                (*c)@,
                (*final(c))@,
                waiter,
                call.request,
                3,
                str_field(path@) + be32(options@) + encode_attributes(attr@),
            ),
{
}

/// `setstat` sends the path and the attributes.
#[verifier::spinoff_prover]
pub proof fn law_call_setstat<T>()
    ensures
        forall|c: &mut SftpClient, path: &str, attr: &Attributes, call: StatusCall| #[trigger]
            call_ensures(SftpClient::setstat, (c, path, attr), call) ==> requests(
                (*c)@,
                (*final(c))@,
                call.request,
                9,
                str_field(path@) + encode_attributes(attr@),
            ),
        forall|
            c: &mut AsyncSftpClient<T>,
            path: &str,
            attr: &Attributes,
            waiter: T,
            call: StatusCall,
        | #[trigger]
            call_ensures(
                AsyncSftpClient::<T>::setstat,
                (c, path, attr, waiter),
                call,
            ) ==> requests_for(
                (*c)@,
                (*final(c))@,
                waiter,
                call.request,
                9,
                str_field(path@) + encode_attributes(attr@),
            ),
{
}

/// `stat` sends the path and the flags, which are zero if none are given.
#[verifier::spinoff_prover]
pub proof fn law_call_stat<T>()
    ensures
        forall|c: &mut SftpClient, path: &str, flags: Option<u32>, call: AttrsCall| #[trigger]
            call_ensures(SftpClient::stat, (c, path, flags), call) ==> requests(
                (*c)@,
                (*final(c))@,
                call.request,
                17,
                str_field(path@) + be32(if flags is Some { flags->0 } else { 0 }),
            ),
        forall|
            c: &mut AsyncSftpClient<T>,
            path: &str,
            flags: Option<u32>,
            waiter: T,
            call: AttrsCall,
        | #[trigger]
            call_ensures(
                AsyncSftpClient::<T>::stat,
                (c, path, flags, waiter),
                call,
            ) ==> requests_for(
                (*c)@,
                (*final(c))@,
                waiter,
                call.request,
                17,
                str_field(path@) + be32(if flags is Some { flags->0 } else { 0 }),
            ),
{
}

/// `lstat` sends the path and the flags, which are zero if none are given.
#[verifier::spinoff_prover]
pub proof fn law_call_lstat<T>()
    ensures
        forall|c: &mut SftpClient, path: &str, flags: Option<u32>, call: AttrsCall| #[trigger]
            call_ensures(SftpClient::lstat, (c, path, flags), call) ==> requests(
                (*c)@,
                (*final(c))@,
                call.request,
                7,
                str_field(path@) + be32(if flags is Some { flags->0 } else { 0 }),
            ),
        forall|
            c: &mut AsyncSftpClient<T>,
            path: &str,
            flags: Option<u32>,
            waiter: T,
            call: AttrsCall,
        | #[trigger]
            call_ensures(
                AsyncSftpClient::<T>::lstat,
                (c, path, flags, waiter),
                call,
            ) ==> requests_for(
                (*c)@,
                (*final(c))@,
                waiter,
                call.request,
                7,
                str_field(path@) + be32(if flags is Some { flags->0 } else { 0 }),
            ),
{
}

/// `remove` sends the path.
#[verifier::spinoff_prover]
pub proof fn law_call_remove<T>()
    ensures
        forall|c: &mut SftpClient, path: &str, call: StatusCall| #[trigger]
            call_ensures(SftpClient::remove, (c, path), call) ==> requests(
                (*c)@,
                (*final(c))@,
                call.request,
                13,
                str_field(path@),
            ),
        forall|c: &mut AsyncSftpClient<T>, path: &str, waiter: T, call: StatusCall| #[trigger]
            call_ensures(AsyncSftpClient::<T>::remove, (c, path, waiter), call) ==> requests_for(
                (*c)@,
                (*final(c))@,
                waiter,
                call.request,
                13,
                str_field(path@),
            ),
{
}

/// `rename` sends the path as it is, the path as it is to be, and the flags; if
/// none are given it asks to overwrite, at once and as the system does it.
#[verifier::spinoff_prover]
pub proof fn law_call_rename<T>()
    ensures
        forall|
            c: &mut SftpClient,
            oldpath: &str,
            newpath: &str,
            flags: Option<u32>,
            call: StatusCall,
        | #[trigger]
            call_ensures(SftpClient::rename, (c, oldpath, newpath, flags), call) ==> requests(
                (*c)@,
                (*final(c))@,
                call.request,
                18,
                str_field(oldpath@) + str_field(newpath@)
                    + be32(if flags is Some { flags->0 } else { 7 }),
            ),
        forall|
            c: &mut AsyncSftpClient<T>,
            oldpath: &str,
            newpath: &str,
            flags: Option<u32>,
            waiter: T,
            call: StatusCall,
        | #[trigger]
            call_ensures(
                AsyncSftpClient::<T>::rename,
                (c, oldpath, newpath, flags, waiter),
                call,
            ) ==> requests_for(
                (*c)@,
                (*final(c))@,
                waiter,
                call.request,
                18,
                str_field(oldpath@) + str_field(newpath@)
                    + be32(if flags is Some { flags->0 } else { 7 }),
            ),
{
    law_flags_are_sent_as_given(0);
}

/// `opendir` sends the path.
#[verifier::spinoff_prover]
pub proof fn law_call_opendir<T>()
    ensures
        forall|c: &mut SftpClient, path: &str, call: DirectoryCall| #[trigger]
            call_ensures(SftpClient::opendir, (c, path), call) ==> requests(
                (*c)@,
                (*final(c))@,
                call.request,
                11,
                str_field(path@),
            ),
        forall|c: &mut AsyncSftpClient<T>, path: &str, waiter: T, call: DirectoryCall| #[trigger]
            call_ensures(AsyncSftpClient::<T>::opendir, (c, path, waiter), call) ==> requests_for(
                (*c)@,
                (*final(c))@,
                waiter,
                call.request,
                11,
                str_field(path@),
            ),
{
}

/// `extended` sends the name of the request and the data as they are.
#[verifier::spinoff_prover]
pub proof fn law_call_extended<T>()
    ensures
        forall|c: &mut SftpClient, request: &str, data: &[u8], call: ExtendedCall| #[trigger]
            call_ensures(SftpClient::extended, (c, request, data), call) ==> requests(
                (*c)@,
                (*final(c))@,
                call.request,
                200,
                str_field(request@) + data@,
            ),
        forall|
            c: &mut AsyncSftpClient<T>,
            request: &str,
            data: &[u8],
            waiter: T,
            call: ExtendedCall,
        | #[trigger]
            call_ensures(
                AsyncSftpClient::<T>::extended,
                (c, request, data, waiter),
                call,
            ) ==> requests_for(
                (*c)@,
                (*final(c))@,
                waiter,
                call.request,
                200,
                str_field(request@) + data@,
            ),
{
}

/// `block` sends the handle, where the range begins, how long it is, the mask.
#[verifier::spinoff_prover]
pub proof fn law_call_block<T>()
    ensures
        forall|
            c: &mut SftpClient,
            file: &File,
            offset: u64,
            length: u64,
            lockmask: u32,
            call: StatusCall,
        | #[trigger]
            call_ensures(SftpClient::block, (c, file, offset, length, lockmask), call) ==> requests(
                (*c)@,
                (*final(c))@,
                call.request,
                22,
                bytes_field(file.0@) + be64(offset) + be64(length) + be32(lockmask),
            ),
        forall|
            c: &mut AsyncSftpClient<T>,
            file: &File,
            offset: u64,
            length: u64,
            lockmask: u32,
            waiter: T,
            call: StatusCall,
        | #[trigger]
            call_ensures(
                AsyncSftpClient::<T>::block,
                (c, file, offset, length, lockmask, waiter),
                call,
            ) ==> requests_for(
                (*c)@,
                (*final(c))@,
                waiter,
                call.request,
                22,
                bytes_field(file.0@) + be64(offset) + be64(length) + be32(lockmask),
            ),
{
}

/// `unblock` sends the handle, where the range begins and how long it is.
#[verifier::spinoff_prover]
pub proof fn law_call_unblock<T>()
    ensures
        forall|
            c: &mut SftpClient,
            file: &File,
            offset: u64,
            length: u64,
            call: StatusCall,
        | #[trigger]
            call_ensures(SftpClient::unblock, (c, file, offset, length), call) ==> requests(
                (*c)@,
                (*final(c))@,
                call.request,
                23,
                bytes_field(file.0@) + be64(offset) + be64(length),
            ),
        forall|
            c: &mut AsyncSftpClient<T>,
            file: &File,
            offset: u64,
            length: u64,
            waiter: T,
            call: StatusCall,
        | #[trigger]
            call_ensures(
                AsyncSftpClient::<T>::unblock,
                (c, file, offset, length, waiter),
                call,
            ) ==> requests_for(
                (*c)@,
                (*final(c))@,
                waiter,
                call.request,
                23,
                bytes_field(file.0@) + be64(offset) + be64(length),
            ),
{
}

/// `fsetstat` sends the handle and the attributes.
#[verifier::spinoff_prover]
pub proof fn law_call_fsetstat<T>()
    ensures
        forall|c: &mut SftpClient, file: &File, attr: &Attributes, call: StatusCall| #[trigger]
            call_ensures(SftpClient::fsetstat, (c, file, attr), call) ==> requests(
                (*c)@,
                (*final(c))@,
                call.request,
                10,
                bytes_field(file.0@) + encode_attributes(attr@),
            ),
        forall|
            c: &mut AsyncSftpClient<T>,
            file: &File,
            attr: &Attributes,
            waiter: T,
            call: StatusCall,
        | #[trigger]
            call_ensures(
                AsyncSftpClient::<T>::fsetstat,
                (c, file, attr, waiter),
                call,
            ) ==> requests_for(
                (*c)@,
                (*final(c))@,
                waiter,
                call.request,
                10,
                bytes_field(file.0@) + encode_attributes(attr@),
            ),
{
}

/// `fstat` sends the handle and the flags, which are zero if none are given.
#[verifier::spinoff_prover]
pub proof fn law_call_fstat<T>()
    ensures
        forall|c: &mut SftpClient, file: &File, flags: Option<u32>, call: AttrsCall| #[trigger]
            call_ensures(SftpClient::fstat, (c, file, flags), call) ==> requests(
                (*c)@,
                (*final(c))@,
                call.request,
                8,
                bytes_field(file.0@) + be32(if flags is Some { flags->0 } else { 0 }),
            ),
        forall|
            c: &mut AsyncSftpClient<T>,
            file: &File,
            flags: Option<u32>,
            waiter: T,
            call: AttrsCall,
        | #[trigger]
            call_ensures(
                AsyncSftpClient::<T>::fstat,
                (c, file, flags, waiter),
                call,
            ) ==> requests_for(
                (*c)@,
                (*final(c))@,
                waiter,
                call.request,
                8,
                bytes_field(file.0@) + be32(if flags is Some { flags->0 } else { 0 }),
            ),
{
}

/// `pwrite` sends the handle, the place and the bytes.
#[verifier::spinoff_prover]
pub proof fn law_call_pwrite<T>()
    ensures
        forall|
            c: &mut SftpClient,
            file: &File,
            offset: u64,
            data: &[u8],
            call: StatusCall,
        | #[trigger]
            call_ensures(SftpClient::pwrite, (c, file, offset, data), call) ==> requests(
                (*c)@,
                (*final(c))@,
                call.request,
                6,
                bytes_field(file.0@) + be64(offset) + bytes_field(data@),
            ),
        forall|
            c: &mut AsyncSftpClient<T>,
            file: &File,
            offset: u64,
            data: &[u8],
            waiter: T,
            call: StatusCall,
        | #[trigger]
            call_ensures(
                AsyncSftpClient::<T>::pwrite,
                (c, file, offset, data, waiter),
                call,
            ) ==> requests_for(
                (*c)@,
                (*final(c))@,
                waiter,
                call.request,
                6,
                bytes_field(file.0@) + be64(offset) + bytes_field(data@),
            ),
{
}

/// `pread` sends the handle, the place and how many bytes are wanted.
#[verifier::spinoff_prover]
pub proof fn law_call_pread<T>()
    ensures
        forall|c: &mut SftpClient, file: &File, offset: u64, length: u32, call: DataCall| #[trigger]
            call_ensures(SftpClient::pread, (c, file, offset, length), call) ==> requests(
                (*c)@,
                (*final(c))@,
                call.request,
                5,
                bytes_field(file.0@) + be64(offset) + be32(length),
            ),
        forall|
            c: &mut AsyncSftpClient<T>,
            file: &File,
            offset: u64,
            length: u32,
            waiter: T,
            call: DataCall,
        | #[trigger]
            call_ensures(
                AsyncSftpClient::<T>::pread,
                (c, file, offset, length, waiter),
                call,
            ) ==> requests_for(
                (*c)@,
                (*final(c))@,
                waiter,
                call.request,
                5,
                bytes_field(file.0@) + be64(offset) + be32(length),
            ),
{
}

/// `fclose` sends the handle.
#[verifier::spinoff_prover]
pub proof fn law_call_fclose<T>()
    ensures
        forall|c: &mut SftpClient, file: &File, call: StatusCall| #[trigger]
            call_ensures(SftpClient::fclose, (c, file), call) ==> requests(
                (*c)@,
                (*final(c))@,
                call.request,
                4,
                bytes_field(file.0@),
            ),
        forall|c: &mut AsyncSftpClient<T>, file: &File, waiter: T, call: StatusCall| #[trigger]
            call_ensures(AsyncSftpClient::<T>::fclose, (c, file, waiter), call) ==> requests_for(
                (*c)@,
                (*final(c))@,
                waiter,
                call.request,
                4,
                bytes_field(file.0@),
            ),
{
}

/// `flineseek` is an extended request of handle and line.
#[verifier::spinoff_prover]
pub proof fn law_call_flineseek<T>()
    ensures
        forall|c: &mut SftpClient, file: &File, lineno: u64, call: SeekCall| #[trigger]
            call_ensures(SftpClient::flineseek, (c, file, lineno), call) ==> requests(
                (*c)@,
                (*final(c))@,
                call.request,
                200,
                str_field("text-seek"@) + (bytes_field(file.0@) + be64(lineno)),
            ),
        forall|
            c: &mut AsyncSftpClient<T>,
            file: &File,
            lineno: u64,
            waiter: T,
            call: SeekCall,
        | #[trigger]
            call_ensures(
                AsyncSftpClient::<T>::flineseek,
                (c, file, lineno, waiter),
                call,
            ) ==> requests_for(
                (*c)@,
                (*final(c))@,
                waiter,
                call.request,
                200,
                str_field("text-seek"@) + (bytes_field(file.0@) + be64(lineno)),
            ),
{
}

/// `closedir` sends the handle.
#[verifier::spinoff_prover]
pub proof fn law_call_closedir<T>()
    ensures
        forall|c: &mut SftpClient, dir: &Directory, call: StatusCall| #[trigger]
            call_ensures(SftpClient::closedir, (c, dir), call) ==> requests(
                (*c)@,
                (*final(c))@,
                call.request,
                4,
                bytes_field(dir.0@),
            ),
        forall|c: &mut AsyncSftpClient<T>, dir: &Directory, waiter: T, call: StatusCall| #[trigger]
            call_ensures(AsyncSftpClient::<T>::closedir, (c, dir, waiter), call) ==> requests_for(
                (*c)@,
                (*final(c))@,
                waiter,
                call.request,
                4,
                bytes_field(dir.0@),
            ),
{
}

/// `readdir` sends the handle.
#[verifier::spinoff_prover]
pub proof fn law_call_readdir<T>()
    ensures
        forall|c: &mut SftpClient, dir: &Directory, call: ListingCall| #[trigger]
            call_ensures(SftpClient::readdir, (c, dir), call) ==> requests(
                (*c)@,
                (*final(c))@,
                call.request,
                12,
                bytes_field(dir.0@),
            ),
        forall|c: &mut AsyncSftpClient<T>, dir: &Directory, waiter: T, call: ListingCall| #[trigger]
            call_ensures(AsyncSftpClient::<T>::readdir, (c, dir, waiter), call) ==> requests_for(
                (*c)@,
                (*final(c))@,
                waiter,
                call.request,
                12,
                bytes_field(dir.0@),
            ),
{
}

/// `realpath` sends the path, and behind it the control byte and the path to
/// append, each only if it was given.
#[verifier::spinoff_prover]
pub proof fn law_call_realpath<T>()
    ensures
        forall|
            c: &mut SftpClient,
            path: &str,
            control: Option<u8>,
            compose: Option<&str>,
            call: NameCall,
        |
            #[trigger] call_ensures(SftpClient::realpath, (c, path, control, compose), call)
                ==> requests(
                (*c)@,
                (*final(c))@,
                call.request,
                16,
                realpath_body(path@, control, opt_chars(compose)),
            ),
        forall|
            c: &mut AsyncSftpClient<T>,
            path: &str,
            control: Option<u8>,
            compose: Option<&str>,
            waiter: T,
            call: NameCall,
        |
            #[trigger] call_ensures(
                AsyncSftpClient::<T>::realpath,
                (c, path, control, compose, waiter),
                call,
            )
                ==> requests_for(
                (*c)@,
                (*final(c))@,
                waiter,
                call.request,
                16,
                realpath_body(path@, control, opt_chars(compose)),
            ),
        forall|c: &mut SftpClient, call: NameCall| #[trigger]
            call_ensures(Shell::home, (c,), call) ==> requests(
                (*c)@,
                (*final(c))@,
                call.request,
                16,
                str_field("."@),
            ),
{
    law_path_resolution_layout("."@, 0, seq![]);
}

/// A connection begins with a packet that announces the version.
pub proof fn law_call_init_packet(buf: Vec<u8>)
    requires
        call_ensures(SftpClient::init_packet, (), buf),
    ensures
        buf@ == seq![0u8, 0u8, 0u8, 5u8, 1u8, 0u8, 0u8, 0u8, 3u8],
{
    law_packet_layout(1, be32(3));
    assert(be32(5) =~= seq![0u8, 0u8, 0u8, 5u8]);
    assert(be32(3) =~= seq![0u8, 0u8, 0u8, 3u8]);
    assert(buf@ =~= seq![0u8, 0u8, 0u8, 5u8, 1u8, 0u8, 0u8, 0u8, 3u8]);
}

// Replies.

/// What a request makes of the packet that came next: without room for an id it
/// is an error, the reply to another request is a breach, and its own reply
/// means what the payload means.
pub open spec fn hears<A, V>(
    id: u32,
    body: Seq<u8>,
    r: Answer<A>,
    view: spec_fn(A) -> V,
    meaning: spec_fn(Seq<u8>) -> AnswerView<V>,
) -> bool {
    if body.len() < 4 {
        r matches Ok(Err(e)) && e@ == ErrorView::Io(
            IoErrorView {
                kind: IoErrorKind::Other,
                message: "response too short to contain request id"@,
            },
        )
    } else if body.take(4) != be32(id) {
        r == Err::<Result<A, Error>, _>(Breach::RequestId)
    } else {
        match meaning(body.skip(4)) {
            Ok(Ok(v)) => r matches Ok(Ok(a)) && view(a) == v,
            Ok(Err(e)) => r matches Ok(Err(f)) && f@ == e,
            Err(b) => r == Err::<Result<A, Error>, _>(b),
        }
    }
}

proof fn lemma_bytes_of_a_number(a: u8, b: u8, c: u8, d: u8)
    ensures
        be32((a * 0x100_0000 + b * 0x1_0000 + c * 0x100 + d) as u32) == seq![a, b, c, d],
{
    let n = (a * 0x100_0000 + b * 0x1_0000 + c * 0x100 + d) as u32;
    assert(n / 0x100_0000 == a);
    assert(n / 0x1_0000 == a * 0x100 + b);
    assert(n / 0x100 == a * 0x1_0000 + b * 0x100 + c);
    assert(be32(n) =~= seq![a, b, c, d]);
}

proof fn lemma_ids_are_bytes(id: u32, body: Seq<u8>)
    requires
        body.len() >= 4,
    ensures
        (body.take(4) == be32(id)) == (from_be32(body) == id),
{
    let four = body.take(4);
    assert(from_be32(four) == from_be32(body));
    if four == be32(id) {
        law_be32_round_trip(id, seq![]);
        assert(be32(id) + seq![] =~= be32(id));
    }
    if from_be32(body) == id {
        lemma_bytes_of_a_number(four[0], four[1], four[2], four[3]);
        assert(four =~= be32(id));
    }
}

/// The packet that came next, taken as the reply to a request of this kind.
#[verifier::spinoff_prover]
pub proof fn law_reply_to_status_call(call: &StatusCall, kind: u8, body: &[u8], r: Answer<()>)
    requires
        call_ensures(StatusCall::complete, (call, kind, body), r),
    ensures
        hears(
            call.request.id,
            body@,
            r,
            |a: ()| (),
            |p: Seq<u8>| Ok(status_answer(kind, p)),
        ),
{
    if body@.len() >= 4 {
        lemma_ids_are_bytes(call.request.id, body@);
    }
}

/// The packet that came next, taken as the reply to a request of this kind.
#[verifier::spinoff_prover]
pub proof fn law_reply_to_name_call(call: &NameCall, kind: u8, body: &[u8], r: Answer<String>)
    requires
        call_ensures(NameCall::complete, (call, kind, body), r),
    ensures
        hears(
            call.request.id,
            body@,
            r,
            |a: String| a@,
            |p: Seq<u8>| first_name_answer(kind, p),
        ),
{
    if body@.len() >= 4 {
        lemma_ids_are_bytes(call.request.id, body@);
    }
}

/// The packet that came next, taken as the reply to a request of this kind.
#[verifier::spinoff_prover]
pub proof fn law_reply_to_file_call(call: &FileCall, kind: u8, body: &[u8], r: Answer<File>)
    requires
        call_ensures(FileCall::complete, (call, kind, body), r),
    ensures
        hears(
            call.request.id,
            body@,
            r,
            |a: File| a.0@,
            |p: Seq<u8>| handle_answer(kind, p),
        ),
{
    if body@.len() >= 4 {
        lemma_ids_are_bytes(call.request.id, body@);
    }
}

/// The packet that came next, taken as the reply to a request of this kind.
#[verifier::spinoff_prover]
pub proof fn law_reply_to_directory_call(
    call: &DirectoryCall,
    kind: u8,
    body: &[u8],
    r: Answer<Directory>,
)
    requires
        call_ensures(DirectoryCall::complete, (call, kind, body), r),
    ensures
        hears(
            call.request.id,
            body@,
            r,
            |a: Directory| a.0@,
            |p: Seq<u8>| handle_answer(kind, p),
        ),
{
    if body@.len() >= 4 {
        lemma_ids_are_bytes(call.request.id, body@);
    }
}

/// The packet that came next, taken as the reply to a request of this kind.
#[verifier::spinoff_prover]
pub proof fn law_reply_to_attrs_call(call: &AttrsCall, kind: u8, body: &[u8], r: Answer<Attributes>)
    requires
        call_ensures(AttrsCall::complete, (call, kind, body), r),
    ensures
        hears(
            call.request.id,
            body@,
            r,
            |a: Attributes| a@,
            |p: Seq<u8>| attrs_answer(kind, p),
        ),
{
    if body@.len() >= 4 {
        lemma_ids_are_bytes(call.request.id, body@);
    }
}

/// The packet that came next, taken as the reply to a request of this kind.
#[verifier::spinoff_prover]
pub proof fn law_reply_to_data_call(call: &DataCall, kind: u8, body: &[u8], r: Answer<Vec<u8>>)
    requires
        call_ensures(DataCall::complete, (call, kind, body), r),
    ensures
        hears(
            call.request.id,
            body@,
            r,
            |a: Vec<u8>| a@,
            |p: Seq<u8>| data_answer(kind, p),
        ),
{
    if body@.len() >= 4 {
        lemma_ids_are_bytes(call.request.id, body@);
    }
}

/// The packet that came next, taken as the reply to a request of this kind.
#[verifier::spinoff_prover]
pub proof fn law_reply_to_listing_call(
    call: &ListingCall,
    kind: u8,
    body: &[u8],
    r: Answer<Vec<(String, String, Attributes)>>,
)
    requires
        call_ensures(ListingCall::complete, (call, kind, body), r),
    ensures
        hears(
            call.request.id,
            body@,
            r,
            |a: Vec<(String, String, Attributes)>| entry_views(a@),
            |p: Seq<u8>| readdir_answer(kind, p),
        ),
{
    if body@.len() >= 4 {
        lemma_ids_are_bytes(call.request.id, body@);
    }
}

/// The packet that came next, taken as the reply to an extended request: its
/// data, or nothing; a seek asks for no data.
#[verifier::spinoff_prover]
pub proof fn law_reply_to_extended_call(
    call: &ExtendedCall,
    seek: &SeekCall,
    kind: u8,
    body: &[u8],
    r: Answer<Option<Vec<u8>>>,
    s: Answer<()>,
)
    requires
        call_ensures(ExtendedCall::complete, (call, kind, body), r),
        call_ensures(SeekCall::complete, (seek, kind, body), s),
    ensures
        hears(
            call.request.id,
            body@,
            r,
            |o: Option<Vec<u8>>| opt_seq(o),
            |p: Seq<u8>| Ok(extended_answer(kind, p)),
        ),
        hears(
            seek.request.id,
            body@,
            s,
            |o: ()| (),
            |p: Seq<u8>| Ok(sought(extended_answer(kind, p))),
        ),
{
    if body@.len() >= 4 {
        lemma_ids_are_bytes(call.request.id, body@);
        lemma_ids_are_bytes(seek.request.id, body@);
    }
}

/// The bytes of a vector, if there is one.
pub open spec fn opt_seq(o: Option<Vec<u8>>) -> Option<Seq<u8>> {
    match o {
        Some(v) => Some(v@),
        None => None,
    }
}

/// An answer of which only the success matters.
pub open spec fn sought(r: Result<Option<Seq<u8>>, ErrorView>) -> Result<(), ErrorView> {
    match r {
        Ok(_) => Ok(()),
        Err(e) => Err(e),
    }
}

// The client of many requests.

/// Whoever waits is handed the reply, with the kind and the payload that came,
/// and is kept no longer; a lost connection keeps nobody.
#[verifier::spinoff_prover]
pub proof fn law_call_run_reader<T>()
    ensures
        forall|
            c: &mut AsyncSftpClient<T>,
            kind: u8,
            body: Vec<u8>,
            action: ReadAction<T>,
        | #[trigger]
            call_ensures(
                AsyncSftpClient::<T>::run_reader,
                (c, ReadEvent::Packet(kind, body)),
                action,
            ) ==> {
                &&& action@ == packet_action((*c)@, kind, body@)
                &&& (*final(c))@ == after_packet((*c)@, body@)
            },
        forall|c: &mut AsyncSftpClient<T>, action: ReadAction<T>| #[trigger]
            call_ensures(AsyncSftpClient::<T>::run_reader, (c, ReadEvent::Failed), action) ==> {
                &&& action@ == ReadActionView::<T>::Stop
                &&& (*final(c))@.lost
                &&& (*final(c))@.pending == Map::<u32, T>::empty()
                &&& (*final(c))@.session == (*c)@.session
            },
{
}

/// A request takes its id and its waiter, and a request that is cancelled gives
/// them up.
#[verifier::spinoff_prover]
pub proof fn law_call_process_and_cancel<T>()
    ensures
        forall|c: &mut SftpClient, cmd: u8, body: &[u8], request: Request| #[trigger]
            call_ensures(SftpClient::process, (c, cmd, body), request) ==> requests(
                (*c)@,
                (*final(c))@,
                request,
                cmd,
                body@,
            ),
        forall|c: &mut AsyncSftpClient<T>, cmd: u8, body: &[u8], waiter: T, request: Request|
            #[trigger] call_ensures(AsyncSftpClient::<T>::process, (c, cmd, body, waiter), request)
                ==> requests_for((*c)@, (*final(c))@, waiter, request, cmd, body@),
        forall|c: &mut AsyncSftpClient<T>, id: u32| #[trigger]
            call_ensures(AsyncSftpClient::<T>::cancel, (c, id), ()) ==> (*final(c))@ == cancelled(
                (*c)@,
                id,
            ),
{
}

/// Both clients are what the handshake says.
pub proof fn law_call_new<T>(
    kind: u8,
    body: &[u8],
    r: Result<SftpClient, IoError>,
    s: Result<AsyncSftpClient<T>, IoError>,
)
    requires
        call_ensures(SftpClient::new, (kind, body), r),
        call_ensures(AsyncSftpClient::<T>::new, (kind, body), s),
    ensures
        match handshake(kind, body@) {
            Ok(c) => {
                &&& r matches Ok(d) && d@ == c
                &&& s matches Ok(d) && d@.session == c && !d@.lost && d@.pending == Map::<
                    u32,
                    T,
                >::empty()
            },
            Err(e) => {
                &&& r matches Err(f) && f@ == e
                &&& s matches Err(f) && f@ == e
            },
        },
{
}

// Names, attributes, errors.

/// Names are told apart by the first byte in which they differ.
pub proof fn law_call_name_not_after(a: &str, b: &str, r: bool, i: int)
    requires
        call_ensures(name_not_after, (a, b), r),
        0 <= i < encode_utf8(a@).len(),
        i < encode_utf8(b@).len(),
        forall|j: int| 0 <= j < i ==> encode_utf8(a@)[j] == encode_utf8(b@)[j],
        encode_utf8(a@)[i] != encode_utf8(b@)[i],
    ensures
        r == (encode_utf8(a@)[i] < encode_utf8(b@)[i]),
{
    law_first_difference_decides(a@, b@, i);
}

/// What there is to list is listed by name.
pub proof fn law_call_list_entries(
    entries: &Vec<(String, String, Attributes)>,
    long: bool,
    lines: Vec<String>,
)
    requires
        call_ensures(list_entries, (entries, long), lines),
    ensures
        texts(lines@) == listing_lines(entry_views(entries@), long),
{
}

/// Attributes become the bytes of their layout.
pub proof fn law_call_serialize(a: &Attributes, r: Result<Vec<u8>, IoError>)
    requires
        call_ensures(Attributes::serialize, (a,), r),
    ensures
        r is Ok,
        r matches Ok(bytes) ==> bytes@ == encode_attributes(a@),
{
}

/// Attributes are read off the wire as they stand there, and no byte behind them
/// is taken.
pub proof fn law_call_decode()
    ensures
        forall|c: &mut Cursor, r: Result<Attributes, Fault>| #[trigger]
            call_ensures(Attributes::decode, (c,), r) ==> match decode_attributes((*c)@) {
                Ok((a, rest)) => r matches Ok(v) && v@ == a && (*final(c))@ == rest,
                Err(e) => r matches Err(f) && f@ == e,
            },
{
}

/// A status code becomes the error of that code.
pub proof fn law_call_from_status(code: u32, m: String, l: String, e: Error)
    requires
        call_ensures(Error::from_status, (code, m, l), e),
    ensures
        1 <= code <= 31 ==> e@ == ErrorView::Status(code, m@, l@),
        code > 31 ==> e@ == ErrorView::Other(code, m@, l@),
{
}

/// An error as a transport error.
pub proof fn law_call_into_io_error(err: Error, e: IoError)
    requires
        call_ensures(<IoError as From<Error>>::from, (err,), e),
    ensures
        e@ == as_io_error(err@),
{
}

/// Each setter of the open options switches its own flag.
pub proof fn law_call_open_options(o: OpenOptions, on: bool, n: OpenOptions)
    ensures
        call_ensures(OpenOptions::read, (o, on), n) ==> n@ == switched(o@, 0x1, on),
        call_ensures(OpenOptions::write, (o, on), n) ==> n@ == switched(o@, 0x2, on),
        call_ensures(OpenOptions::append, (o, on), n) ==> n@ == switched(o@, 0x4, on),
        call_ensures(OpenOptions::create, (o, on), n) ==> n@ == switched(o@, 0x8, on),
        call_ensures(OpenOptions::truncate, (o, on), n) ==> n@ == switched(o@, 0x10, on),
        call_ensures(OpenOptions::excl, (o, on), n) ==> n@ == switched(o@, 0x20, on),
        call_ensures(OpenOptions::new, (), n) ==> n@ == 0,
{
}

// Bytes that come and go.

/// What the four bytes before a packet say: zero is no packet, and a number
/// whose highest bit is set is none either.
pub proof fn law_call_packet_length(header: &[u8; 4], f: Framing)
    requires
        call_ensures(packet_length, (header,), f),
    ensures
        f == (if from_be32(header@) == 0 {
            Framing::Empty
        } else if header@[0] < 0x80 {
            Framing::Length(from_be32(header@))
        } else {
            Framing::Negative
        }),
{
}

/// A packet without even a kind is an error for a client of many requests, and a
/// lost connection has an error of its own.
pub proof fn law_call_read_length(header: &[u8; 4], r: Result<u32, IoError>, e: IoError)
    requires
        call_ensures(read_length, (header,), r),
        call_ensures(lost_reply, (), e),
    ensures
        from_be32(header@) > 0 ==> r == Ok::<u32, IoError>(from_be32(header@)),
        from_be32(header@) == 0 ==> (r matches Err(f) && f@ == (IoErrorView {
            kind: IoErrorKind::Other,
            message: "zero-length packet"@,
        })),
        e@ == (IoErrorView {
            kind: IoErrorKind::Other,
            message: "reader task closed before response arrived"@,
        }),
{
}

/// A packet is appended as its length, its kind and its body, and taken off as
/// it was appended.
#[verifier::spinoff_prover]
pub proof fn law_call_raw_packets()
    ensures
        forall|out: &mut Vec<u8>, kind: u8, body: &[u8], r: Result<(), IoError>| #[trigger]
            call_ensures(write_raw_packet, (out, kind, body), r) ==> {
                &&& r is Ok
                &&& (*final(out))@ == (*out)@ + packet(kind, body@)
            },
        forall|c: &mut Cursor, r: Result<(u8, Vec<u8>), IoError>| #[trigger]
            call_ensures(read_raw_packet, (c,), r) ==> match parse_packet((*c)@) {
                Ok(((kind, body), rest)) => {
                    &&& r matches Ok(p)
                    &&& p.0 == kind
                    &&& p.1@ == body
                    &&& (*final(c))@ == rest
                },
                Err(e) => r matches Err(f) && f@ == e,
            },
{
}

// What is shown, and what is asked for.

/// What is shown of a path.
pub proof fn law_call_describe(
    path: &str,
    a: &Attributes,
    lines: Vec<String>,
    line: String,
    d: bool,
)
    requires
        call_ensures(describe, (path, a), lines),
        call_ensures(format_long, (path, a), line),
        call_ensures(is_dir, (a,), d),
    ensures
        texts(lines@) == attr_lines(path@, a@),
        line@ == long_line(path@, a@),
        d == is_directory(a@),
{
}

/// What the words of a line ask for.
pub proof fn law_call_interpret(words: &[String], c: Command, r: (bool, Option<String>))
    requires
        call_ensures(interpret, (words,), c),
        call_ensures(parse_ls_args, (words,), r),
    ensures
        c@ == command_line(texts(words@)),
        r.0 == wants_long(texts(words@)),
        opt_view(r.1) == last_operand(texts(words@)),
{
}

/// What is in attributes and in errors is what their fields hold.
pub proof fn law_fields_are_shown(a: Attributes, e: IoError)
    ensures
        a@.size == a.size,
        a@.uid == a.uid,
        a@.gid == a.gid,
        a@.allocation_size == a.allocation_size,
        a@.permissions == a.permissions,
        a@.owner == opt_view(a.owner),
        a@.group == opt_view(a.group),
        a@.access_time == a.access_time,
        a@.create_time == a.create_time,
        a@.modify_time == a.modify_time,
        a@.ctime == a.ctime,
        a@.acl == opt_seq(a.acl),
        a@.attrib_bits == a.attrib_bits,
        a@.attrib_bits_valid == a.attrib_bits_valid,
        a@.text_hint == a.text_hint,
        a@.mime_type == opt_view(a.mime_type),
        a@.link_count == a.link_count,
        a@.untranslated_name == opt_seq(a.untranslated_name),
        a.extended is None ==> a@.extended is None,
        a.extended is Some ==> a@.extended == Some(pair_texts(a.extended->0@)),
        e@.kind == e.kind,
        e@.message == e.message@,
{
}

/// Pairs of strings are shown as pairs of texts, key before value, and entries
/// as name, line and attributes.
pub proof fn law_lists_are_shown(
    pairs: Seq<(String, String)>,
    entries: Seq<(String, String, Attributes)>,
    lines: Seq<String>,
    i: int,
)
    requires
        0 <= i < pairs.len(),
        i < entries.len(),
        i < lines.len(),
    ensures
        pair_texts(pairs).len() == pairs.len(),
        pair_texts(pairs)[i] == (pairs[i].0@, pairs[i].1@),
        entry_views(entries).len() == entries.len(),
        entry_views(entries)[i] == (entries[i].0@, entries[i].1@, entries[i].2@),
        texts(lines).len() == lines.len(),
        texts(lines)[i] == lines[i]@,
{
}

/// Events and actions are shown with all that they carry.
pub proof fn law_events_and_actions_are_shown<E>(
    kind: u8,
    bytes: Vec<u8>,
    path: String,
    lines: Vec<String>,
    n: u32,
    err: Error,
    b: Breach,
    e: E,
)
    ensures
        Event::<E>::Reply(kind, bytes)@ == EventView::<E>::Reply(kind, bytes@),
        Event::<E>::Ready@ == EventView::<E>::Ready,
        Event::<E>::Bytes(bytes)@ == EventView::<E>::Bytes(bytes@),
        Event::<E>::Failed(e)@ == EventView::<E>::Failed(e),
        Action::<E>::Send(bytes)@ == ActionView::<E>::Send(bytes@),
        Action::<E>::Create(path)@ == ActionView::<E>::Create(path@),
        Action::<E>::Open(path)@ == ActionView::<E>::Open(path@),
        Action::<E>::Write(bytes)@ == ActionView::<E>::Write(bytes@),
        Action::<E>::Read(n)@ == ActionView::<E>::Read(n),
        Action::<E>::Done(lines)@ == ActionView::<E>::Done(texts(lines@)),
        Action::<E>::Fail(Failure::Protocol(err))@ == ActionView::<E>::Fail(
            FailureView::Protocol(err@),
        ),
        Action::<E>::Fail(Failure::Outside(e))@ == ActionView::<E>::Fail(FailureView::Outside(e)),
        Action::<E>::Abort(b)@ == ActionView::<E>::Abort(b),
        Action::<E>::Wait@ == ActionView::<E>::Wait,
{
}

/// Commands are shown with their words in the order in which they stand.
pub proof fn law_commands_are_shown(a: String, b: String, s: bool, words: Vec<String>)
    ensures
        Command::Rename(a, b)@ == CommandView::Rename(a@, b@),
        Command::Symlink(a, b)@ == CommandView::Symlink(a@, b@),
        Command::Ln(a, b, s)@ == CommandView::Ln(a@, b@, s),
        Command::Chmod(a, b)@ == CommandView::Chmod(a@, b@),
        Command::Get(a, Some(b))@ == CommandView::Get(a@, Some(b@)),
        Command::Get(a, None)@ == CommandView::Get(a@, None),
        Command::Put(a, Some(b))@ == CommandView::Put(a@, Some(b@)),
        Command::Put(a, None)@ == CommandView::Put(a@, None),
        Command::Cd(Some(a))@ == CommandView::Cd(Some(a@)),
        Command::Cd(None)@ == CommandView::Cd(None),
        Command::Ls(words)@ == CommandView::Ls(texts(words@)),
        Command::Mkdir(a)@ == CommandView::Mkdir(a@),
        Command::Rmdir(a)@ == CommandView::Rmdir(a@),
        Command::Rm(a)@ == CommandView::Rm(a@),
        Command::Stat(a)@ == CommandView::Stat(a@),
{
}

// The shell.

/// A step of the shell leads where the stage and the event lead.
#[verifier::spinoff_prover]
pub proof fn law_call_step<E>()
    ensures
        forall|sh: &mut Shell, stage: Stage<E>, event: Event<E>, r: (Stage<E>, Action<E>)|
            #[trigger] call_ensures(Shell::step::<E>, (sh, stage, event), r) ==> {
                let step = next_step((*sh)@, stage@, event@);
                &&& (*final(sh))@ == step.shell
                &&& r.0@ == step.stage
                &&& r.1@ == step.action
            },
{
}

/// A line sets going what its command sets going.
#[verifier::spinoff_prover]
pub proof fn law_call_dispatch<E>()
    ensures
        forall|sh: &mut Shell, line: &str, job: Job<E>| #[trigger]
            call_ensures(Shell::dispatch::<E>, (sh, line), job) ==> exists|
                name: Option<Seq<char>>,
            | #[trigger]
                name_fits((*sh)@, line_command(line@), name) && ((*final(sh))@, job@)
                    == job_of::<E>((*sh)@, line_command(line@), name),
        forall|sh: &mut Shell, command: Command, job: Job<E>| #[trigger]
            call_ensures(Shell::begin::<E>, (sh, command), job) ==> exists|
                name: Option<Seq<char>>,
            | #[trigger]
                name_fits((*sh)@, command@, name) && ((*final(sh))@, job@) == job_of::<E>(
                    (*sh)@,
                    command@,
                    name,
                ),
{
}

/// A command on one path asks the server for that path as seen from the working
/// directory, whatever the path.
#[verifier::spinoff_prover]
pub proof fn law_calls_on_one_path<E>()
    ensures
        forall|sh: &mut Shell, path: &str, r: (Stage<E>, Action<E>)| #[trigger]
            call_ensures(Shell::cmd_rm::<E>, (sh, path), r) ==> r.1@ == ActionView::<E>::Send(
                issued((*sh)@.session, 13, str_field(resolved((*sh)@.cwd, path@))).packet,
            ),
        forall|sh: &mut Shell, path: &str, r: (Stage<E>, Action<E>)| #[trigger]
            call_ensures(Shell::cmd_rmdir::<E>, (sh, path), r) ==> r.1@ == ActionView::<E>::Send(
                issued((*sh)@.session, 15, str_field(resolved((*sh)@.cwd, path@))).packet,
            ),
        forall|sh: &mut Shell, path: &str, r: (Stage<E>, Action<E>)| #[trigger]
            call_ensures(Shell::cmd_stat::<E>, (sh, path), r) ==> r.1@ == ActionView::<E>::Send(
                issued(
                    (*sh)@.session,
                    17,
                    str_field(resolved((*sh)@.cwd, path@)) + be32(0),
                ).packet,
            ),
{
}

/// A path as the shell sees it: one that begins with a slash is what it is, any
/// other stands behind the working directory and a slash.
pub proof fn law_call_resolve_remote(sh: &Shell, path: &str, p: String)
    requires
        call_ensures(Shell::resolve_remote, (sh, path), p),
    ensures
        path@.len() > 0 && path@[0] == '/' ==> p@ == path@,
        !(path@.len() > 0 && path@[0] == '/') && !(sh@.cwd.len() > 0 && sh@.cwd[sh@.cwd.len() - 1]
            == '/') ==> p@ == sh@.cwd + "/"@ + path@,
        !(path@.len() > 0 && path@[0] == '/') && sh@.cwd.len() > 0 && sh@.cwd[sh@.cwd.len() - 1]
            == '/' ==> p@ == sh@.cwd + path@,
{
}

} // verus!
