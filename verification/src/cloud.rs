//! Talking to the cloud: where the gateway pushes measurements, sends its
//! health and polls its configuration, how it identifies itself, and how an
//! answer is read.

use vstd::prelude::*;

use crate::config::Cloud;
use crate::push::CloudResponse;
use crate::text::concat;

verus! {

/// The URL of an endpoint: `http` or `https`, the domain, `/iot/`, the
/// endpoint's name, a slash and the gateway's id.
pub open spec fn endpoint_url(ssl: bool, domain: Seq<char>, name: Seq<char>, id: Seq<char>) -> Seq<
    char,
> {
    (if ssl {
        "https"@
    } else {
        "http"@
    }) + "://"@ + domain + "/iot/"@ + name + "/"@ + id
}

/// Law: the protocol of every endpoint follows the `ssl` flag: the URL
/// starts with `https://` with ssl and with `http://` without it, the
/// domain comes right after, then `/iot/`, the endpoint's name, a slash and
/// the gateway's id.
pub proof fn law_endpoint_protocol(ssl: bool, domain: Seq<char>, name: Seq<char>, id: Seq<char>)
    ensures
        ssl ==> endpoint_url(ssl, domain, name, id).take(8) =~= seq!['h', 't', 't', 'p', 's', ':', '/', '/'],
        ssl ==> endpoint_url(ssl, domain, name, id).skip(8).take(domain.len() as int) =~= domain,
        !ssl ==> endpoint_url(ssl, domain, name, id).take(7) =~= seq!['h', 't', 't', 'p', ':', '/', '/'],
        !ssl ==> endpoint_url(ssl, domain, name, id).skip(7).take(domain.len() as int) =~= domain,
        endpoint_url(ssl, domain, name, id).skip(
            (if ssl {
                8int
            } else {
                7int
            }) + domain.len(),
        ) =~= seq!['/', 'i', 'o', 't', '/'] + name + seq!['/'] + id,
{
    reveal_strlit("https");
    reveal_strlit("http");
    reveal_strlit("://");
    let url = endpoint_url(ssl, domain, name, id);
    let head = (if ssl {
        "https"@
    } else {
        "http"@
    }) + "://"@;
    let rest = domain + "/iot/"@ + name + "/"@ + id;
    assert(url =~= head + rest);
    assert((head + rest).take(head.len() as int) =~= head);
    assert((head + rest).skip(head.len() as int) =~= rest);
    assert(rest.take(domain.len() as int) =~= domain);
    reveal_strlit("/iot/");
    reveal_strlit("/");
    assert(rest.skip(domain.len() as int) =~= seq!['/', 'i', 'o', 't', '/'] + name + seq!['/'] + id);
}

/// The URL of an endpoint (see [`endpoint_url`]).
pub fn endpoint(ssl: bool, domain: &String, name: &str, id: &String) -> (url: String)
    ensures
        url@ == endpoint_url(ssl, domain@, name@, id@),
{
    let protocol = if ssl {
        "https".to_owned()
    } else {
        "http".to_owned()
    };
    let url = concat(&protocol, &"://".to_owned());
    let url = concat(&url, domain);
    let url = concat(&url, &"/iot/".to_owned());
    let url = concat(&url, &name.to_owned());
    let url = concat(&url, &"/".to_owned());
    let url = concat(&url, id);
    url
}

/// The endpoints of the gateway.
#[derive(Debug)]
pub struct Endpoints {
    pub push: String,
    pub update: String,
    pub poll: String,
}

/// The endpoints of the gateway `id` at `domain`: `push`, `update` and
/// `poll`.
pub fn endpoints(ssl: bool, domain: &String, id: &String) -> (e: Endpoints)
    ensures
        e.push@ == endpoint_url(ssl, domain@, "push"@, id@),
        e.update@ == endpoint_url(ssl, domain@, "update"@, id@),
        e.poll@ == endpoint_url(ssl, domain@, "poll"@, id@),
{
    Endpoints {
        push: endpoint(ssl, domain, "push", id),
        update: endpoint(ssl, domain, "update", id),
        poll: endpoint(ssl, domain, "poll", id),
    }
}

/// The value of the `X-API-Key` header: the configured key, or the
/// gateway's id when there is none.
pub fn api_key_header(api_key: Option<String>, id: &String) -> (key: String)
    ensures
        key@ == match api_key {
            Some(k) => k@,
            None => id@,
        },
{
    match api_key {
        Some(k) => k,
        None => crate::text::copy_string(id),
    }
}

/// A header that every request to the cloud carries.
#[derive(Debug)]
pub struct Header {
    pub name: String,
    pub value: String,
}

/// How the cloud client is set up: its endpoints, the headers of every
/// request, and the timeout of a request in milliseconds.
#[derive(Debug)]
pub struct ClientSettings {
    pub endpoints: Endpoints,
    pub headers: Vec<Header>,
    pub timeout_ms: u64,
}

/// The setup of the cloud client for `cloud`: its endpoints; an `X-API-Key`
/// header with the key (see [`api_key_header`]) and an `X-Buffer-Behavior`
/// header with `buffer`; and the configured timeout in milliseconds, taken
/// as an unsigned number.
pub fn client_settings(cloud: &Cloud) -> (s: ClientSettings)
    ensures
        s.endpoints.push@ == endpoint_url(cloud.ssl, cloud.domain@, "push"@, cloud.id@),
        s.endpoints.update@ == endpoint_url(cloud.ssl, cloud.domain@, "update"@, cloud.id@),
        s.endpoints.poll@ == endpoint_url(cloud.ssl, cloud.domain@, "poll"@, cloud.id@),
        s.headers@.len() == 2,
        s.headers@[0].name@ == "X-API-Key"@,
        s.headers@[0].value@ == match cloud.api_key {
            Some(k) => k@,
            None => cloud.id@,
        },
        s.headers@[1].name@ == "X-Buffer-Behavior"@,
        s.headers@[1].value@ == "buffer"@,
        s.timeout_ms == cloud.timeout as u64,
{
    let key = match &cloud.api_key {
        Some(k) => api_key_header(Some(crate::text::copy_string(k)), &cloud.id),
        None => api_key_header(None, &cloud.id),
    };
    let mut headers: Vec<Header> = Vec::new();
    headers.push(Header { name: "X-API-Key".to_owned(), value: key });
    headers.push(Header { name: "X-Buffer-Behavior".to_owned(), value: "buffer".to_owned() });
    ClientSettings {
        endpoints: endpoints(cloud.ssl, &cloud.domain, &cloud.id),
        headers,
        timeout_ms: cloud.timeout as u64,
    }
}

/// The cloud's answer: a success when its status is in the 2xx range.
pub fn response(status: u16, text: String) -> (r: CloudResponse)
    ensures
        r.success == (200 <= status < 300),
        r.code == status,
        r.text == text,
{
    CloudResponse { success: 200 <= status && status < 300, text, code: status }
}

} // verus!
