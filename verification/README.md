# rustfs-agent-mcp

An MCP server that exposes a RustFS (S3-compatible) cluster to agents over Streamable HTTP,
restricted to an ephemeral test namespace. Its rules are a verified Verus library.

## Layout

| Path | What it holds |
| --- | --- |
| `src/config.rs` | Reading the configuration, and the rules that it has to keep |
| `src/policy.rs` | Bucket names inside the namespace; session and minter policies |
| `src/grants.rs` | What those policies grant, with the laws that confine them |
| `src/tools.rs`, `src/tools/` | What each tool asks of the services and what it answers |
| `src/server.rs`, `src/clients.rs` | What the server and its clients are started with |
| `src/json.rs`, `src/text.rs` | JSON documents and plain text, as the rest needs them |
| `app/` | The program: clients, tool arguments, and the calls to the services |
| `tests/` | Tests of the library |

A tool is split where a service is called. `request` (or `begin`) turns the arguments into what
the service is asked; `respond` takes the reply, or the text of its error, and gives the answer.
The deletion of a bucket is a chain of such steps. `src/tools/call.rs` holds a call of any tool,
and the laws that hold of them all.

## Configuration

All configuration is environment variables, prefix `RUSTFS_AGENT_MCP_`:

| Variable | Default | Meaning |
| --- | --- | --- |
| `ENDPOINT` | required | S3/STS endpoint |
| `ACCESS_KEY` / `SECRET_KEY` | required | The scoped minter identity, never cluster root keys |
| `BIND_HOST` | `127.0.0.1` | Bind address |
| `BIND_PORT` | `8765` | Listen port |
| `REGION` | `us-east-1` | S3 region |
| `BUCKET_PREFIX` | `agent-test-` | Namespace enforced on every operation |
| `RETENTION_DAYS` | `7` | Lifecycle expiry for new buckets (`0` disables) |
| `MAX_BODY_BYTES` | `4194304` | Object body cap through tool calls |
| `ALLOWED_HOSTS` | bind address | Extra `Host` values for DNS-rebinding protection |

`rustfs-agent-mcp print-minter-policy` prints the IAM policy document that the minter identity
must carry on the cluster.
