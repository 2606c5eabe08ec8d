# ez_vps

A small tool that bootstraps and manages a VPS over SSH: it installs base
packages, Docker and a reverse proxy (Caddy or Nginx), configures the
firewall, keeps domain-to-port mappings in `servers.toml` and checks that the
server answers.

The crate is written in Verus. `src/` holds everything the tool decides, each
function with a contract that Verus proves:

- `config` — servers and their app mappings; lookup, upsert, laws of both.
- `proxy` — the Caddyfile and Nginx site the tool writes, paths and commands.
- `plan` — remote work as a list of steps (announce, run, write a file).
- `commands` — what each command decides: adding and removing mappings (and
  the laws that keep one proxy and distinct domains per server), the setup,
  update and uninstall plans, probe reading, version comparison.
- `ui` — the `init` prompts' choices, the command preview and the summary.
- `ssh` — quoting (with a proof that the shell reads the command back
  unchanged), the `ssh` arguments, os-release parsing, connection advice.
- `paths`, `text` — path joining and the string operations the rest uses.

`app/` is the executable around it: argument parsing, prompts, reading and
writing the configuration file, running `ssh` and the other local processes.
