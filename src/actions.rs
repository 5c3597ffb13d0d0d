//! The action encoder: one action becomes a kind tag and a JSON argument
//! document.

use vstd::prelude::*;
use crate::json::{copy_json, escape_json, is_escaped, same_json, Json};
use crate::message::{AccessKeyPermissionView, AccessKeyView, ActionView};
use crate::records::ActionKind;
use crate::text::{
    base64_encode, base64_of, decimal, decimal_of, escape_text, escaped_of, hex_encode, hex_of,
};

verus! {

pub open spec fn action_kind_of(a: ActionView) -> ActionKind {
    match a {
        ActionView::CreateAccount => ActionKind::CreateAccount,
        ActionView::DeployContract { .. } => ActionKind::DeployContract,
        ActionView::FunctionCall { .. } => ActionKind::FunctionCall,
        ActionView::Transfer { .. } => ActionKind::Transfer,
        ActionView::Stake { .. } => ActionKind::Stake,
        ActionView::AddKey { .. } => ActionKind::AddKey,
        ActionView::DeleteKey { .. } => ActionKind::DeleteKey,
        ActionView::DeleteAccount { .. } => ActionKind::DeleteAccount,
        ActionView::Delegate { .. } => ActionKind::Delegate,
    }
}

/// A member named `key` whose value is the string `val`.
pub open spec fn str_member(m: (String, Json), key: Seq<char>, val: Seq<char>) -> bool {
    m.0@ == key && m.1 is Str && m.1->Str_0@ == val
}

/// The members of an object document, where `j` is one.
pub open spec fn members(j: Json) -> Seq<(String, Json)> {
    j->Object_0@
}

/// `j` is how an access key is written: its nonce, and its permission as
/// `"FullAccess"` or as a `FunctionCall` object with allowance (a decimal
/// string, or null), receiver and method names.
pub open spec fn access_key_json(k: AccessKeyView, j: Json) -> bool {
    &&& j is Object
    &&& members(j).len() == 2
    &&& members(j)[0].0@ == "nonce"@ && members(j)[0].1 == Json::UInt(k.nonce)
    &&& members(j)[1].0@ == "permission"@
    &&& match k.permission {
        AccessKeyPermissionView::FullAccess =>
            members(j)[1].1 is Str && members(j)[1].1->Str_0@ == "FullAccess"@,
        AccessKeyPermissionView::FunctionCall { allowance, receiver_id, method_names } => {
            let p = members(j)[1].1;
            &&& p is Object && members(p).len() == 1 && members(p)[0].0@ == "FunctionCall"@
            &&& {
                let f = members(p)[0].1;
                &&& f is Object && members(f).len() == 3
                &&& members(f)[0].0@ == "allowance"@
                &&& match allowance {
                    Some(a) => members(f)[0].1 is Str && members(f)[0].1->Str_0@ == decimal_of(a as nat),
                    None => members(f)[0].1 is Null,
                }
                &&& str_member(members(f)[1], "receiver_id"@, receiver_id@)
                &&& members(f)[2].0@ == "method_names"@
                &&& members(f)[2].1 is Array
                &&& members(f)[2].1->Array_0@.len() == method_names@.len()
                &&& forall|i: int| 0 <= i < method_names@.len() ==>
                    (#[trigger] members(f)[2].1->Array_0@[i]) is Str
                    && members(f)[2].1->Array_0@[i]->Str_0@ == method_names@[i]@
            }
        },
    }
}

/// `args` is the argument document of action `a`.
pub open spec fn action_args(a: ActionView, args: Json) -> bool {
    &&& args is Object
    &&& match a {
        ActionView::CreateAccount => members(args).len() == 0,
        ActionView::DeployContract { code } =>
            members(args).len() == 1 && str_member(members(args)[0], "code_sha256"@, hex_of(code@)),
        ActionView::FunctionCall { method_name, args: bytes, args_json, gas, deposit } => {
            &&& str_member(members(args)[0], "method_name"@, escaped_of(method_name@))
            &&& str_member(members(args)[1], "args_base64"@, base64_of(bytes@))
            &&& members(args)[2].0@ == "gas"@ && members(args)[2].1 == Json::UInt(gas)
            &&& str_member(members(args)[3], "deposit"@, decimal_of(deposit as nat))
            &&& match args_json {
                Some(doc) => members(args).len() == 5 && members(args)[4].0@ == "args_json"@
                    && is_escaped(doc, members(args)[4].1),
                None => members(args).len() == 4,
            }
        },
        ActionView::Transfer { deposit } =>
            members(args).len() == 1 && str_member(members(args)[0], "deposit"@, decimal_of(deposit as nat)),
        ActionView::Stake { stake, public_key } => {
            &&& members(args).len() == 2
            &&& str_member(members(args)[0], "stake"@, decimal_of(stake as nat))
            &&& str_member(members(args)[1], "public_key"@, public_key@)
        },
        ActionView::AddKey { public_key, access_key } => {
            &&& members(args).len() == 2
            &&& str_member(members(args)[0], "public_key"@, public_key@)
            &&& members(args)[1].0@ == "access_key"@
            &&& access_key_json(access_key, members(args)[1].1)
        },
        ActionView::DeleteKey { public_key } =>
            members(args).len() == 1 && str_member(members(args)[0], "public_key"@, public_key@),
        ActionView::DeleteAccount { beneficiary_id } =>
            members(args).len() == 1 && str_member(members(args)[0], "beneficiary_id"@, beneficiary_id@),
        ActionView::Delegate { delegate_action, signature } => {
            &&& members(args).len() == 2
            &&& members(args)[0].0@ == "delegate_action"@
            &&& same_json(delegate_action, members(args)[0].1)
            &&& str_member(members(args)[1], "signature"@, signature@)
        },
    }
}

fn key(k: &str) -> (r: String)
    ensures
        r@ == k@,
{
    String::from_str(k)
}

fn str_json(s: String) -> (r: Json)
    ensures
        r is Str && r->Str_0 == s,
{
    Json::Str(s)
}

fn access_key_doc(k: &AccessKeyView) -> (r: Json)
    ensures
        access_key_json(*k, r),
{
    let mut ms: Vec<(String, Json)> = Vec::new();
    ms.push((key("nonce"), Json::UInt(k.nonce)));
    let permission = match &k.permission {
        AccessKeyPermissionView::FullAccess => str_json(key("FullAccess")),
        AccessKeyPermissionView::FunctionCall { allowance, receiver_id, method_names } => {
            let mut fs: Vec<(String, Json)> = Vec::new();
            let a = match allowance {
                Some(a) => str_json(decimal(*a)),
                None => Json::Null,
            };
            fs.push((key("allowance"), a));
            fs.push((key("receiver_id"), str_json(receiver_id.clone())));
            let mut names: Vec<Json> = Vec::new();
            let mut i: usize = 0;
            while i < method_names.len()
                invariant
                    i <= method_names@.len(),
                    names@.len() == i,
                    forall|k: int| 0 <= k < i ==>
                        (#[trigger] names@[k]) is Str && names@[k]->Str_0@ == method_names@[k]@,
                decreases method_names@.len() - i,
            {
                names.push(str_json(method_names[i].clone()));
                i = i + 1;
            }
            fs.push((key("method_names"), Json::Array(names)));
            let mut ps: Vec<(String, Json)> = Vec::new();
            ps.push((key("FunctionCall"), Json::Object(fs)));
            Json::Object(ps)
        },
    };
    ms.push((key("permission"), permission));
    Json::Object(ms)
}

/// The kind tag and argument document of an action. Function-call arguments
/// are carried as base64 and, where they hold a JSON document, also as that
/// document with its string leaves escaped; the method name is escaped too.
pub fn get_action_type_and_value(a: &ActionView) -> (r: (ActionKind, Json))
    ensures
        r.0 == action_kind_of(*a),
        action_args(*a, r.1),
{
    let mut ms: Vec<(String, Json)> = Vec::new();
    let kind = match a {
        ActionView::CreateAccount => ActionKind::CreateAccount,
        ActionView::DeployContract { code } => {
            ms.push((key("code_sha256"), str_json(hex_encode(code))));
            ActionKind::DeployContract
        },
        ActionView::FunctionCall { method_name, args, args_json, gas, deposit } => {
            ms.push((key("method_name"), str_json(escape_text(method_name))));
            ms.push((key("args_base64"), str_json(base64_encode(args))));
            ms.push((key("gas"), Json::UInt(*gas)));
            ms.push((key("deposit"), str_json(decimal(*deposit))));
            match args_json {
                Some(doc) => {
                    ms.push((key("args_json"), escape_json(doc)));
                },
                None => {},
            }
            ActionKind::FunctionCall
        },
        ActionView::Transfer { deposit } => {
            ms.push((key("deposit"), str_json(decimal(*deposit))));
            ActionKind::Transfer
        },
        ActionView::Stake { stake, public_key } => {
            ms.push((key("stake"), str_json(decimal(*stake))));
            ms.push((key("public_key"), str_json(public_key.clone())));
            ActionKind::Stake
        },
        ActionView::AddKey { public_key, access_key } => {
            ms.push((key("public_key"), str_json(public_key.clone())));
            ms.push((key("access_key"), access_key_doc(access_key)));
            ActionKind::AddKey
        },
        ActionView::DeleteKey { public_key } => {
            ms.push((key("public_key"), str_json(public_key.clone())));
            ActionKind::DeleteKey
        },
        ActionView::DeleteAccount { beneficiary_id } => {
            ms.push((key("beneficiary_id"), str_json(beneficiary_id.clone())));
            ActionKind::DeleteAccount
        },
        ActionView::Delegate { delegate_action, signature } => {
            ms.push((key("delegate_action"), copy_json(delegate_action)));
            ms.push((key("signature"), str_json(signature.clone())));
            ActionKind::Delegate
        },
    };
    (kind, Json::Object(ms))
}

} // verus!
