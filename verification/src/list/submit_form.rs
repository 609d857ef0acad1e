//! The edit and delete buttons of the list page.

use vstd::prelude::*;
use vstd::string::*;

use crate::create::FormValues;
use crate::state::{bcrypt_verdict, Approval, State};
use crate::util::flash::Alert;
use crate::util::text::{concat, concat3};

verus! {

#[derive(Clone, Copy, Debug, PartialEq, Eq, Structural)]
pub enum FormAction {
    Edit,
    Delete,
}

/// The fields sent by a button of the list page.
#[derive(Debug)]
pub struct FormData {
    pub action: FormAction,
    pub password: Option<String>,
    pub shortname: String,
}

impl FormData {
    /// The password given with the request, or the empty one.
    pub fn password_or_empty(&self) -> (r: String)
        ensures
            match self.password {
                Some(p) => r@ == p@,
                None => r@ == Seq::<char>::empty(),
            },
    {
        match &self.password {
            Some(p) => p.clone(),
            None => String::new(),
        }
    }
}

/// The notice shown when a link is opened for editing.
pub fn editing_alert(base_url: &str, shortname: &str) -> (a: Alert)
    ensures
        a matches Alert::Info(m) && m@ == "Editing link for "@ + base_url@ + "/"@ + shortname@,
{
    let link = concat3(base_url, "/", shortname);
    Alert::Info(concat("Editing link for ", link.as_str()))
}

impl State {
    /// The creation form filled with the link `shortname`, its shortname
    /// fixed.
    pub fn edit_form_values(&self, shortname: &str) -> (v: FormValues)
        requires
            self.links_view().contains_key(shortname@),
        ensures
            v.shortname@ == self.links_view()[shortname@].shortname,
            v.longurl@ == self.links_view()[shortname@].longurl,
            v.shortname_is_disabled,
    {
        match self.links.get(shortname) {
            Some(link) => FormValues {
                shortname: link.shortname.clone(),
                longurl: link.longurl.clone(),
                shortname_is_disabled: true,
            },
            None => {
                proof {
                    assert(false);
                }
                FormValues { shortname: String::new(), longurl: String::new(), shortname_is_disabled: true }
            },
        }
    }

    /// Takes in how the storage API's deletion of `shortname` went (the text
    /// of its error, if any) and returns the notice to show: the link is
    /// dropped only once the API deleted it. It takes the approval that
    /// checking the request's password against this state's stored hash
    /// gave: no link is deleted without a password that matches it.
    pub fn record_delete_response(&mut self, approval: Approval, shortname: &str, reply: Result<(), String>) -> (alert: Alert)
        requires
            approval.hash() == old(self).password_hash_view(),
        ensures
            bcrypt_verdict(approval.password(), old(self).password_hash_view()) == Some(true),
            final(self).password_hash_view() == old(self).password_hash_view(),
            match reply {
                Ok(()) => {
                    &&& final(self).links_view() == old(self).links_view().remove(shortname@)
                    &&& alert matches Alert::Success(m) && m@ == "Link deleted successfully."@
                },
                Err(e) => {
                    &&& final(self).links_view() == old(self).links_view()
                    &&& alert matches Alert::Error(m) && m@ == "Unexpected error: "@ + e@
                },
            },
    {
        proof {
            use_type_invariant(&approval);
        }
        match reply {
            Ok(()) => {
                self.links.remove(shortname);
                Alert::Success(String::from_str("Link deleted successfully."))
            },
            Err(e) => Alert::Error(concat("Unexpected error: ", e.as_str())),
        }
    }
}


/// What the service does with a button of the list page.
#[derive(Debug)]
pub enum ListPlan {
    /// The notice and the form values are flashed and the browser is sent to
    /// the front page, where the form shows the link.
    Edit { alert: Alert, values: FormValues },
    /// The password does not match: this notice is flashed and the browser is
    /// sent to the front page.
    Refuse(Alert),
    /// The password matched: the storage API is asked to delete the link,
    /// its answer goes, with this approval, to [`State::record_delete_response`],
    /// and the browser is sent to the list.
    Delete(Approval),
}

impl State {
    /// Decides what a button of the list page does. Editing is asked of a
    /// stored link. An error is returned only when the stored password hash
    /// cannot be read.
    pub fn start_list_action(&self, base_url: &str, form: &FormData) -> (r: Result<ListPlan, crate::state::PasswordError>)
        requires
            form.action == FormAction::Edit ==> self.links_view().contains_key(form.shortname@),
        ensures
            form.action == FormAction::Edit ==> (r matches Ok(ListPlan::Edit { alert, values }) && {
                &&& alert matches Alert::Info(m) && m@ == "Editing link for "@ + base_url@ + "/"@
                    + form.shortname@
                &&& values.shortname@ == self.links_view()[form.shortname@].shortname
                &&& values.longurl@ == self.links_view()[form.shortname@].longurl
                &&& values.shortname_is_disabled
            }),
            form.action == FormAction::Delete ==> {
                let password = match form.password {
                    Some(p) => p@,
                    None => Seq::<char>::empty(),
                };
                let check = crate::state::password_check(crate::state::bcrypt_verdict(password, self.password_hash_view()));
                match r {
                    Ok(ListPlan::Delete(a)) => check == Ok::<bool, crate::state::PasswordError>(true)
                        && a.password() == password && a.hash() == self.password_hash_view(),
                    Ok(ListPlan::Refuse(a)) => check == Ok::<bool, crate::state::PasswordError>(false) && (a matches Alert::Error(m)
                        && m@ == "Password was invalid."@),
                    Ok(ListPlan::Edit { .. }) => false,
                    Err(e) => check == Err::<bool, crate::state::PasswordError>(e),
                }
            },
    {
        match form.action {
            FormAction::Edit => {
                let alert = editing_alert(base_url, form.shortname.as_str());
                let values = self.edit_form_values(form.shortname.as_str());
                Ok(ListPlan::Edit { alert, values })
            },
            FormAction::Delete => {
                let password = form.password_or_empty();
                match self.approve(password.as_str()) {
                    Ok(Some(approval)) => Ok(ListPlan::Delete(approval)),
                    Ok(None) => Ok(ListPlan::Refuse(crate::create::submit_form::invalid_password_alert())),
                    Err(e) => Err(e),
                }
            },
        }
    }
}

} // verus!
