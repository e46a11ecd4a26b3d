# fulfillment

The part of bendobundles that turns a claim into a gift link or a key, keeps the shelf in step with
the orders it comes from, and tells the operator what needs a person.

`src/` is the library, verified with Verus. It decides; it talks to nobody. Whatever has to ask the
outside world is written as a machine: from where it stands and the reply to its last request it says
what to do on the way and what to request next.

| module | what it holds |
|---|---|
| `claim_flow`, `claim_laws` | one run of a claim, and what holds of every run |
| `humble`, `protocol`, `session` | outcomes of calls to the key store, requests and answers, logging in |
| `reconcile` | claims that were left pending |
| `sync`, `shelf`, `discovery` | a sync, the rows of the shelf, monthly games that can still be claimed |
| `steam`, `app_set`, `enrich`, `enrich_pass`, `backfill_pass`, `ownership` | what is kept of the apps of the storefront |
| `heal_pairs` | games that stand on the shelf twice |
| `operator_message`, `wording`, `notice`, `notify` | what the operator reads, and how it is posted |
| `card`, `bell`, `whisper`, `whisper_card`, `lantern` | the cards for the friends' channel |
| `model`, `text`, `select`, `order`, `calendar` | the data, and the small tools |

`app/` is the service around it: the function's entry point, the stores, the clients and the wire
formats, each of its loops driving one of the machines. It also holds three programs for the operator
(`backfill_genres`, `fail_stuck_self_claim`, `heal_choice_pairs`), named by the first argument.

`tests/` runs the library on concrete values.
