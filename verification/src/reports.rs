//! The lines that the consoles show.

use vstd::prelude::*;
use crate::downloads::client_not_found;
use crate::downloads::client_not_found_text;
use crate::downloads::names_server;
use crate::downloads::no_file_list;
use crate::downloads::no_file_list_text;
use crate::messages::files_view;
use crate::messages::infos_view;
use crate::messages::ClientInfo;
use crate::messages::ClientInfoView;
use crate::messages::FileMetadata;
use crate::messages::FileView;
use crate::relay::Relay;
use crate::relay::RelayView;
use crate::server_files::found_view;
use crate::text::decimal;
use crate::text::eq_ignore_ascii_case;
use crate::text::join3;
use crate::text::to_decimal;

verus! {

/// The view of some lines.
pub open spec fn lines_view(lines: Seq<String>) -> Seq<Seq<char>> {
    lines.map_values(|line: String| line@)
}

/// The line about a file, behind `indent`.
pub open spec fn file_line(indent: Seq<char>, file: FileView) -> Seq<char> {
    indent + "- "@ + file.path + " ("@ + decimal(file.size as nat) + " B)"@
}

/// The lines about some files.
pub open spec fn file_lines(indent: Seq<char>, files: Seq<FileView>) -> Seq<Seq<char>> {
    files.map_values(|file: FileView| file_line(indent, file))
}

/// The line about a target and the number of its files.
pub open spec fn target_line(info: ClientInfoView) -> Seq<char> {
    "- "@ + info.client_id + " ("@ + decimal(info.files_count as nat) + " files)"@
}

/// Adds a line.
fn add_line(lines: &mut Vec<String>, line: String)
    ensures
        lines_view(final(lines)@) == lines_view(old(lines)@).push(line@),
{
    lines.push(line);
    assert(lines_view(lines@) == lines_view(old(lines)@).push(line@));
}

/// Adds the lines about some files.
fn add_files(lines: &mut Vec<String>, indent: &str, files: &Vec<FileMetadata>)
    ensures
        lines_view(final(lines)@) == lines_view(old(lines)@) + file_lines(
            indent@,
            files_view(files@),
        ),
{
    let ghost before = lines_view(lines@);
    let ghost wanted = file_lines(indent@, files_view(files@));
    let mut i: usize = 0;
    while i < files.len()
        invariant
            i <= files@.len(),
            wanted == file_lines(indent@, files_view(files@)),
            lines_view(lines@) == before + wanted.take(i as int),
        decreases files@.len() - i,
    {
        let line = join3(indent, "- ", files[i].path.as_str()).concat(" (").concat(
            to_decimal(files[i].size).as_str(),
        ).concat(" B)");
        assert(line@ == wanted[i as int]);
        add_line(lines, line);
        i += 1;
        assert(wanted.take(i as int) == wanted.take(i - 1).push(wanted[i - 1]));
    }
    assert(wanted.take(i as int) == wanted);
}

/// The answer to a question about the files of `target`.
pub open spec fn listing(target: Seq<char>, files: Seq<FileView>) -> Seq<Seq<char>> {
    if files.len() == 0 {
        seq!["No files for: "@ + target]
    } else {
        seq!["Files for "@ + target + ":"@] + file_lines(Seq::empty(), files)
    }
}

/// Tells what files a target has.
pub fn print_files(target_client_id: &str, files: &Vec<FileMetadata>) -> (lines: Vec<String>)
    ensures
        lines_view(lines@) == listing(target_client_id@, files_view(files@)),
{
    let mut lines: Vec<String> = Vec::new();
    assert(lines_view(lines@) == Seq::<Seq<char>>::empty());
    if files.len() == 0 {
        add_line(&mut lines, "No files for: ".to_string().concat(target_client_id));
        return lines;
    }
    add_line(&mut lines, join3("Files for ", target_client_id, ":"));
    proof {
        reveal_strlit("");
        assert(""@ == Seq::<char>::empty());
    }
    add_files(&mut lines, "", files);
    lines
}

/// The line about files that could not be listed.
pub open spec fn listing_failed(error: Seq<char>) -> Seq<char> {
    "Error listing server files: "@ + error
}

/// What the console shows of the server's own files.
pub open spec fn own_files(found: Result<Seq<FileView>, Seq<char>>) -> Seq<Seq<char>> {
    match found {
        Ok(files) => listing("server"@, files),
        Err(error) => seq![listing_failed(error)],
    }
}

/// Tells what files the server itself has.
pub fn list_server_files(found: &Result<Vec<FileMetadata>, String>) -> (lines: Vec<String>)
    ensures
        lines_view(lines@) == own_files(found_view(*found)),
{
    match found {
        Ok(files) => print_files("server", files),
        Err(error) => {
            let mut lines: Vec<String> = Vec::new();
            assert(lines_view(lines@) == Seq::<Seq<char>>::empty());
            add_line(&mut lines, "Error listing server files: ".to_string().concat(error.as_str()));
            lines
        },
    }
}

/// The lines about the files below a target.
pub open spec fn below(files: Seq<FileView>) -> Seq<Seq<char>> {
    if files.len() == 0 {
        seq!["  no files"@]
    } else {
        file_lines("  "@, files)
    }
}

/// Adds the lines about the files below a target.
fn add_below(lines: &mut Vec<String>, files: &Vec<FileMetadata>)
    ensures
        lines_view(final(lines)@) == lines_view(old(lines)@) + below(files_view(files@)),
{
    if files.len() == 0 {
        add_line(lines, "  no files".to_string());
    } else {
        add_files(lines, "  ", files);
    }
}

/// Adds the line about a target and the number of its files.
fn add_target(lines: &mut Vec<String>, client_id: &str, files_count: usize)
    ensures
        lines_view(final(lines)@) == lines_view(old(lines)@).push(
            target_line(ClientInfoView { client_id: client_id@, files_count }),
        ),
{
    let line = join3("- ", client_id, " (").concat(
        to_decimal(files_count as u64).as_str(),
    ).concat(" files)");
    add_line(lines, line);
}

impl<C, S, R> RelayView<C, S, R> {
    /// The lines about the client `id`.
    pub open spec fn client_lines(self, id: Seq<char>) -> Seq<Seq<char>> {
        if self.folders.contains_key(id) {
            let files = self.folders[id];
            seq![
                target_line(ClientInfoView { client_id: id, files_count: files.len() as usize }),
            ] + below(files)
        } else {
            seq!["- "@ + id + " (no registered file list)"@]
        }
    }

    /// The lines about the first `n` of the connected clients.
    pub open spec fn first_clients(self, n: int) -> Seq<Seq<char>>
        decreases n,
    {
        if n <= 0 {
            Seq::empty()
        } else {
            self.first_clients(n - 1) + self.client_lines(self.order[n - 1])
        }
    }

    /// What the console shows of who is connected; `found` are the server's own files.
    pub open spec fn overview(self, found: Result<Seq<FileView>, Seq<char>>) -> Seq<Seq<char>> {
        let (failure, files) = match found {
            Ok(files) => (Seq::empty(), files),
            Err(error) => (seq![listing_failed(error)], Seq::empty()),
        };
        failure + seq![
            "Available targets:"@,
            target_line(ClientInfoView { client_id: "server"@, files_count: files.len() as usize }),
        ] + below(files) + if self.order.len() == 0 {
            seq!["No connected clients"@]
        } else {
            seq!["Connected clients:"@] + self.first_clients(self.order.len() as int)
        }
    }
}

/// Tells who is connected and what they share.
pub fn list_connected_clients<C, S, R>(
    relay: &Relay<C, S, R>,
    found: &Result<Vec<FileMetadata>, String>,
) -> (lines: Vec<String>)
    requires
        relay.wf(),
    ensures
        lines_view(lines@) == relay@.overview(found_view(*found)),
{
    let ghost wanted = relay@.overview(found_view(*found));
    let mut lines: Vec<String> = Vec::new();
    assert(lines_view(lines@) == Seq::<Seq<char>>::empty());
    let none: Vec<FileMetadata> = Vec::new();
    assert(files_view(none@) == Seq::<FileView>::empty());
    let files = match found {
        Ok(files) => files,
        Err(error) => {
            add_line(&mut lines, "Error listing server files: ".to_string().concat(error.as_str()));
            &none
        },
    };
    add_line(&mut lines, "Available targets:".to_string());
    add_target(&mut lines, "server", files.len());
    add_below(&mut lines, files);
    if relay.clients_count() == 0 {
        add_line(&mut lines, "No connected clients".to_string());
        assert(lines_view(lines@) == wanted);
        return lines;
    }
    add_line(&mut lines, "Connected clients:".to_string());
    let ghost before = lines_view(lines@);
    let mut i: usize = 0;
    assert(before + relay@.first_clients(0) == before);
    while i < relay.clients_count()
        invariant
            relay.wf(),
            i <= relay@.order.len(),
            lines_view(lines@) == before + relay@.first_clients(i as int),
        decreases relay@.order.len() - i,
    {
        let ghost so_far = lines_view(lines@);
        let client_id = relay.client_id_at(i);
        match relay.folder(client_id) {
            Some(folder) => {
                add_target(&mut lines, client_id, folder.files.len());
                add_below(&mut lines, &folder.files);
            },
            None => {
                add_line(&mut lines, join3("- ", client_id, " (no registered file list)"));
            },
        }
        assert(lines_view(lines@) == so_far + relay@.client_lines(client_id@));
        i += 1;
        assert(lines_view(lines@) == before + relay@.first_clients(i as int));
    }
    assert(lines_view(lines@) == wanted);
    lines
}

/// The answer of the server's console to `files`.
pub enum FilesAnswer {
    /// The server's own files are to be listed, for [`list_server_files`].
    ListServerFiles,
    /// These lines are shown.
    Lines { lines: Vec<String> },
}

impl<C, S, R> RelayView<C, S, R> {
    /// What the console shows of the files of the client `target`.
    pub open spec fn client_listing(self, target: Seq<char>) -> Seq<Seq<char>> {
        if !self.clients.contains_key(target) {
            seq![client_not_found(target)]
        } else if !self.folders.contains_key(target) {
            seq![no_file_list(target)]
        } else {
            listing(target, self.folders[target])
        }
    }
}

/// Tells what files a target has.
pub fn list_files_for_target<C, S, R>(relay: &Relay<C, S, R>, target_client_id: &str) -> (answer:
    FilesAnswer)
    requires
        relay.wf(),
    ensures
        match answer {
            FilesAnswer::ListServerFiles => names_server(target_client_id@),
            FilesAnswer::Lines { lines } => !names_server(target_client_id@) && lines_view(lines@)
                == relay@.client_listing(target_client_id@),
        },
{
    if eq_ignore_ascii_case(target_client_id, "server") {
        return FilesAnswer::ListServerFiles;
    }
    let mut lines: Vec<String> = Vec::new();
    assert(lines_view(lines@) == Seq::<Seq<char>>::empty());
    if relay.client(target_client_id).is_none() {
        add_line(&mut lines, client_not_found_text(target_client_id));
        return FilesAnswer::Lines { lines };
    }
    match relay.folder(target_client_id) {
        None => {
            add_line(&mut lines, no_file_list_text(target_client_id));
            FilesAnswer::Lines { lines }
        },
        Some(folder) => FilesAnswer::Lines { lines: print_files(target_client_id, &folder.files) },
    }
}

/// What a client shows of the targets that it is told of.
pub open spec fn targets_listing(infos: Seq<ClientInfoView>) -> Seq<Seq<char>> {
    if infos.len() == 0 {
        seq!["No available targets"@]
    } else {
        seq!["Available targets:"@] + infos.map_values(|info: ClientInfoView| target_line(info))
    }
}

/// Tells what targets there are.
pub fn print_targets(infos: &Vec<ClientInfo>) -> (lines: Vec<String>)
    ensures
        lines_view(lines@) == targets_listing(infos_view(infos@)),
{
    let mut lines: Vec<String> = Vec::new();
    assert(lines_view(lines@) == Seq::<Seq<char>>::empty());
    if infos.len() == 0 {
        add_line(&mut lines, "No available targets".to_string());
        return lines;
    }
    add_line(&mut lines, "Available targets:".to_string());
    let ghost before = lines_view(lines@);
    let ghost wanted = infos_view(infos@).map_values(|info: ClientInfoView| target_line(info));
    let mut i: usize = 0;
    while i < infos.len()
        invariant
            i <= infos@.len(),
            wanted == infos_view(infos@).map_values(|info: ClientInfoView| target_line(info)),
            lines_view(lines@) == before + wanted.take(i as int),
        decreases infos@.len() - i,
    {
        add_target(&mut lines, infos[i].client_id.as_str(), infos[i].files_count);
        i += 1;
        assert(wanted.take(i as int) == wanted.take(i - 1).push(wanted[i - 1]));
    }
    assert(wanted.take(i as int) == wanted);
    lines
}

} // verus!
