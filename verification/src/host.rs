//! StatusNotifierHost registration.
//!
//! A `StatusNotifierHost` is the application that does the actual graphical representation of
//! tray items. It needs no particular methods or signals on the bus: the presence of the
//! well-known name `org.freedesktop.StatusNotifierHost-{pid}` is enough to tell items that a
//! graphical shell is running.

use vstd::prelude::*;

use crate::message::{Message, MessageView};
use crate::text;

verus! {

/// The well-known name of the host in the process with the given number.
pub open spec fn host_name_of(pid: u32) -> Seq<char> {
    "org.freedesktop.StatusNotifierHost-"@ + text::decimal(pid as nat)
}

/// The well-known name of the host in the process with the given number.
pub fn host_name(pid: u32) -> (res: String)
    ensures
        res@ == host_name_of(pid),
{
    text::join("org.freedesktop.StatusNotifierHost-", text::decimal_text(pid).as_str())
}

/// The call that acquires the host's well-known name. The bus releases the name when the
/// connection is dropped.
pub fn register(host_name: &str) -> (res: Message)
    ensures
        res@ == MessageView::request_name(host_name@, 0),
{
    Message::request_name(host_name, 0)
}

/// The name of the host is the well-known prefix and the number of its process in decimal.
pub proof fn law_host_name_holds_the_process_number(pid: u32)
    ensures
        ({
            let prefix = "org.freedesktop.StatusNotifierHost-"@;
            let name = host_name_of(pid);
            let digits = name.skip(prefix.len() as int);
            &&& name == prefix + digits
            &&& text::number_of(digits) == pid
            &&& forall|i: int| 0 <= i < digits.len() ==> '0' <= #[trigger] digits[i] <= '9'
            &&& digits.len() > 0 && (digits[0] == '0' ==> pid == 0)
        }),
{
    let prefix = "org.freedesktop.StatusNotifierHost-"@;
    let name = host_name_of(pid);
    text::law_decimal_reads_back(pid as nat);
    assert(name.skip(prefix.len() as int) =~= text::decimal(pid as nat));
    assert(name =~= prefix + name.skip(prefix.len() as int));
}

} // verus!
